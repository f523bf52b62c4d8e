//! The wire-format parser: a recursive-descent reader of the report
//! schema over bytes. It accepts exactly the canonical encodings that
//! `codec` prints and fails with `SchemaError` on anything else — a
//! missing field, a malformed number or date, trailing bytes.

use vstd::prelude::*;
use vstd::string::StringSliceAdditionalSpecFns;
use crate::analysis::{AnalysisView, StockAnalysis};
use crate::codec::ascii_seq;
use crate::date::{civil_wf, days_in_month, Date};
use crate::error::SchemaError;
use crate::quote::DailyQuote;

verus! {

pub open spec fn is_digit_byte(b: u8) -> bool {
    48 <= b <= 57
}

/// How many digit bytes stand at `i` before the first non-digit.
pub open spec fn digit_run(s: Seq<u8>, i: int) -> int
    decreases s.len() - i,
{
    if 0 <= i < s.len() && is_digit_byte(s[i]) {
        1 + digit_run(s, i + 1)
    } else {
        0
    }
}

/// The value of the digit bytes in `[i, j)`, most significant first.
pub open spec fn digits_val(s: Seq<u8>, i: int, j: int) -> int
    decreases j - i,
{
    if i >= j {
        0
    } else {
        digits_val(s, i, j - 1) * 10 + (s[j - 1] - 48)
    }
}

pub open spec fn pow10(k: nat) -> nat
    decreases k,
{
    if k == 0 {
        1
    } else {
        10 * pow10((k - 1) as nat)
    }
}

/// A canonical decimal `u64`: a maximal digit run, no leading zero, value
/// in range.
pub open spec fn spec_parse_u64(s: Seq<u8>, i: int) -> Option<(u64, int)> {
    let k = digit_run(s, i);
    if k == 0 {
        None
    } else if k > 1 && s[i] == 48 {
        None
    } else if k > 20 {
        None
    } else if digits_val(s, i, i + k) > u64::MAX {
        None
    } else {
        Some((digits_val(s, i, i + k) as u64, i + k))
    }
}

/// An exact literal.
pub open spec fn spec_parse_lit(s: Seq<u8>, i: int, lit: Seq<u8>) -> Option<int> {
    if 0 <= i && lit.len() > 0 && i + lit.len() <= s.len() && s.subrange(i, i + lit.len())
        == lit {
        Some(i + lit.len())
    } else {
        None
    }
}

/// Exactly two digits, any value (zero-padded on the wire).
pub open spec fn spec_parse_pad2(s: Seq<u8>, i: int) -> Option<(int, int)> {
    if 0 <= i && i + 2 <= s.len() && is_digit_byte(s[i]) && is_digit_byte(s[i + 1]) {
        Some((10 * (s[i] - 48) + (s[i + 1] - 48), i + 2))
    } else {
        None
    }
}

/// Exactly four digits, any value (zero-padded on the wire).
pub open spec fn spec_parse_pad4(s: Seq<u8>, i: int) -> Option<(int, int)> {
    if 0 <= i && i + 4 <= s.len() && is_digit_byte(s[i]) && is_digit_byte(s[i + 1])
        && is_digit_byte(s[i + 2]) && is_digit_byte(s[i + 3]) {
        Some(
            (
                1000 * (s[i] - 48) + 100 * (s[i + 1] - 48) + 10 * (s[i + 2] - 48) + (s[i + 3]
                    - 48),
                i + 4,
            ),
        )
    } else {
        None
    }
}

/// A `YYYY-MM-DD` date that names a real calendar day.
pub open spec fn spec_parse_date(s: Seq<u8>, i: int) -> Option<(Date, int)> {
    match spec_parse_pad4(s, i) {
        None => None,
        Some((y, j)) => if j < s.len() && s[j] == ('-' as u8) {
            match spec_parse_pad2(s, j + 1) {
                None => None,
                Some((mo, j2)) => if j2 < s.len() && s[j2] == ('-' as u8) {
                    match spec_parse_pad2(s, j2 + 1) {
                        None => None,
                        Some((dd, j3)) => if 1 <= y && civil_wf(y, mo, dd) {
                            Some((Date { year: y as i32, month: mo as u8, day: dd as u8 }, j3))
                        } else {
                            None
                        },
                    }
                } else {
                    None
                },
            }
        } else {
            None
        },
    }
}

/// A fixed-point price: a canonical whole part, a point, four fractional
/// digits, value in range.
pub open spec fn spec_parse_price(s: Seq<u8>, i: int) -> Option<(u64, int)> {
    match spec_parse_u64(s, i) {
        None => None,
        Some((ip, j)) => if j < s.len() && s[j] == ('.' as u8) {
            match spec_parse_pad4(s, j + 1) {
                None => None,
                Some((frac, j2)) => if ip * 10000 + frac <= u64::MAX {
                    Some(((ip * 10000 + frac) as u64, j2))
                } else {
                    None
                },
            }
        } else {
            None
        },
    }
}

pub open spec fn spec_parse_bool(s: Seq<u8>, i: int) -> Option<(bool, int)> {
    if spec_parse_lit(s, i, ascii_seq("true"@)) is Some {
        Some((true, spec_parse_lit(s, i, ascii_seq("true"@)).unwrap()))
    } else if spec_parse_lit(s, i, ascii_seq("false"@)) is Some {
        Some((false, spec_parse_lit(s, i, ascii_seq("false"@)).unwrap()))
    } else {
        None
    }
}

/// One day object, fields in the schema's order.
#[verifier::opaque]
pub open spec fn spec_parse_quote(s: Seq<u8>, i: int) -> Option<(DailyQuote, int)> {
    match spec_parse_lit(s, i, ascii_seq("{\"date\":\""@)) {
        None => None,
        Some(j0) => match spec_parse_date(s, j0) {
            None => None,
            Some((date, j1)) => match spec_parse_lit(s, j1, ascii_seq("\",\"open\":"@)) {
                None => None,
                Some(j2) => match spec_parse_price(s, j2) {
                    None => None,
                    Some((open, j3)) => match spec_parse_lit(s, j3, ascii_seq(",\"high\":"@)) {
                        None => None,
                        Some(j4) => match spec_parse_price(s, j4) {
                            None => None,
                            Some((high, j5)) => match spec_parse_lit(
                                s,
                                j5,
                                ascii_seq(",\"low\":"@),
                            ) {
                                None => None,
                                Some(j6) => match spec_parse_price(s, j6) {
                                    None => None,
                                    Some((low, j7)) => match spec_parse_lit(
                                        s,
                                        j7,
                                        ascii_seq(",\"close\":"@),
                                    ) {
                                        None => None,
                                        Some(j8) => match spec_parse_price(s, j8) {
                                            None => None,
                                            Some((close, j9)) => match spec_parse_lit(
                                                s,
                                                j9,
                                                ascii_seq(",\"volume\":"@),
                                            ) {
                                                None => None,
                                                Some(j10) => match spec_parse_u64(s, j10) {
                                                    None => None,
                                                    Some((volume, j11)) => match spec_parse_lit(
                                                        s,
                                                        j11,
                                                        ascii_seq(",\"adjclose\":"@),
                                                    ) {
                                                        None => None,
                                                        Some(j12) => match spec_parse_price(
                                                            s,
                                                            j12,
                                                        ) {
                                                            None => None,
                                                            Some((adjclose, j13)) => match spec_parse_lit(
                                                                s,
                                                                j13,
                                                                ascii_seq(",\"is_volatile\":"@),
                                                            ) {
                                                                None => None,
                                                                Some(j14) => match spec_parse_bool(
                                                                    s,
                                                                    j14,
                                                                ) {
                                                                    None => None,
                                                                    Some(
                                                                        (is_volatile, j15),
                                                                    ) => match spec_parse_lit(
                                                                        s,
                                                                        j15,
                                                                        ascii_seq("}"@),
                                                                    ) {
                                                                        None => None,
                                                                        Some(j16) => Some(
                                                                            (
                                                                                DailyQuote {
                                                                                    date,
                                                                                    open,
                                                                                    high,
                                                                                    low,
                                                                                    volume,
                                                                                    close,
                                                                                    adjclose,
                                                                                    is_volatile,
                                                                                },
                                                                                j16,
                                                                            ),
                                                                        ),
                                                                    },
                                                                },
                                                            },
                                                        },
                                                    },
                                                },
                                            },
                                        },
                                    },
                                },
                            },
                        },
                    },
                },
            },
        },
    }
}

/// The days of one array up to and including its closing bracket.
pub open spec fn spec_parse_quote_seq(s: Seq<u8>, i: int) -> Option<(Seq<DailyQuote>, int)>
    decreases s.len() - i,
{
    if !(0 <= i < s.len()) {
        None
    } else if s[i] == (']' as u8) {
        Some((Seq::empty(), i + 1))
    } else {
        match spec_parse_quote(s, i) {
            None => None,
            Some((q, j)) => if !(i < j && j < s.len()) {
                None
            } else if s[j] == (',' as u8) {
                match spec_parse_quote_seq(s, j + 1) {
                    None => None,
                    Some((rest, k)) => Some((seq![q] + rest, k)),
                }
            } else if s[j] == (']' as u8) {
                Some((seq![q], j + 1))
            } else {
                None
            },
        }
    }
}

/// The report's scalar fields, through the opening bracket of the
/// regular series; the two series of the returned view are left empty for
/// the later stages to fill.
#[verifier::opaque]
pub open spec fn spec_parse_scalars(s: Seq<u8>) -> Option<(AnalysisView, int)> {
    match spec_parse_lit(s, 0, ascii_seq("{\"min_close_price\":"@)) {
        None => None,
        Some(j0) => match spec_parse_price(s, j0) {
            None => None,
            Some((min_close_price, j1)) => match spec_parse_lit(
                s,
                j1,
                ascii_seq(",\"max_close_price\":"@),
            ) {
                None => None,
                Some(j2) => match spec_parse_price(s, j2) {
                    None => None,
                    Some((max_close_price, j3)) => match spec_parse_lit(
                        s,
                        j3,
                        ascii_seq(",\"min_close_date\":\""@),
                    ) {
                        None => None,
                        Some(j4) => match spec_parse_date(s, j4) {
                            None => None,
                            Some((min_close_date, j5)) => match spec_parse_lit(
                                s,
                                j5,
                                ascii_seq("\",\"max_close_date\":\""@),
                            ) {
                                None => None,
                                Some(j6) => match spec_parse_date(s, j6) {
                                    None => None,
                                    Some((max_close_date, j7)) => match spec_parse_lit(
                                        s,
                                        j7,
                                        ascii_seq("\",\"start_date\":\""@),
                                    ) {
                                        None => None,
                                        Some(j8) => match spec_parse_date(s, j8) {
                                            None => None,
                                            Some((start_date, j9)) => match spec_parse_lit(
                                                s,
                                                j9,
                                                ascii_seq("\",\"end_date\":\""@),
                                            ) {
                                                None => None,
                                                Some(j10) => match spec_parse_date(s, j10) {
                                                    None => None,
                                                    Some((end_date, j11)) => match spec_parse_lit(
                                                        s,
                                                        j11,
                                                        ascii_seq("\",\"min_low_price\":"@),
                                                    ) {
                                                        None => None,
                                                        Some(j12) => match spec_parse_price(
                                                            s,
                                                            j12,
                                                        ) {
                                                            None => None,
                                                            Some(
                                                                (min_low_price, j13),
                                                            ) => match spec_parse_lit(
                                                                s,
                                                                j13,
                                                                ascii_seq(
                                                                    ",\"max_high_price\":"@,
                                                                ),
                                                            ) {
                                                                None => None,
                                                                Some(j14) => match spec_parse_price(
                                                                    s,
                                                                    j14,
                                                                ) {
                                                                    None => None,
                                                                    Some(
                                                                        (max_high_price, j15),
                                                                    ) => match spec_parse_lit(
                                                                        s,
                                                                        j15,
                                                                        ascii_seq(
                                                                            ",\"regular_quotes\":["@,
                                                                        ),
                                                                    ) {
                                                                        None => None,
                                                                        Some(j16) => Some(
                                                                            (
                                                                                AnalysisView {
                                                                                    min_close_price,
                                                                                    max_close_price,
                                                                                    min_close_date,
                                                                                    max_close_date,
                                                                                    start_date,
                                                                                    end_date,
                                                                                    min_low_price,
                                                                                    max_high_price,
                                                                                    regular_quotes:
                                                                                        Seq::empty(),
                                                                                    volatile_quotes:
                                                                                        Seq::empty(),
                                                                                },
                                                                                j16,
                                                                            ),
                                                                        ),
                                                                    },
                                                                },
                                                            },
                                                        },
                                                    },
                                                },
                                            },
                                        },
                                    },
                                },
                            },
                        },
                    },
                },
            },
        },
    }
}

/// A whole report object; the payload must end exactly with it.
pub open spec fn spec_parse_report(s: Seq<u8>) -> Option<AnalysisView> {
    match spec_parse_scalars(s) {
        None => None,
        Some((head, j16)) => match spec_parse_quote_seq(s, j16) {
            None => None,
            Some((regular_quotes, j17)) => match spec_parse_lit(
                s,
                j17,
                ascii_seq(",\"volatile_quotes\":["@),
            ) {
                None => None,
                Some(j18) => match spec_parse_quote_seq(s, j18) {
                    None => None,
                    Some((volatile_quotes, j19)) => match spec_parse_lit(
                        s,
                        j19,
                        ascii_seq("}"@),
                    ) {
                        None => None,
                        Some(j20) => if j20 == s.len() {
                            Some(
                                AnalysisView {
                                    min_close_price: head.min_close_price,
                                    max_close_price: head.max_close_price,
                                    min_close_date: head.min_close_date,
                                    max_close_date: head.max_close_date,
                                    start_date: head.start_date,
                                    end_date: head.end_date,
                                    min_low_price: head.min_low_price,
                                    max_high_price: head.max_high_price,
                                    regular_quotes,
                                    volatile_quotes,
                                },
                            )
                        } else {
                            None
                        },
                    },
                },
            },
        },
    }
}

// ---------------------------------------------------------------------
// Decoding.
// ---------------------------------------------------------------------

/// Each digit sequence's value is below the power of ten of its width.
proof fn lemma_digits_val_bound(s: Seq<u8>, i: int, j: int)
    requires
        i <= j,
        forall|t: int| i <= t < j ==> is_digit_byte(#[trigger] s[t]),
    ensures
        0 <= digits_val(s, i, j) < pow10((j - i) as nat),
    decreases j - i,
{
    if i < j {
        lemma_digits_val_bound(s, i, j - 1);
    }
}

fn parse_u64(s: &[u8], i: usize) -> (r: Option<(u64, usize)>)
    requires
        i <= s@.len(),
    ensures
        r matches Some(p) ==> spec_parse_u64(s@, i as int) == Some((p.0, p.1 as int)) && i < p.1
            <= s@.len(),
        r is None ==> spec_parse_u64(s@, i as int) is None,
{
    let n = s.len();
    let mut j = i;
    loop
        invariant_except_break
            i <= j <= n,
            n == s@.len(),
            digit_run(s@, i as int) == (j - i) + digit_run(s@, j as int),
            forall|t: int| i <= t < j ==> is_digit_byte(#[trigger] s@[t]),
        ensures
            i <= j <= n,
            n == s@.len(),
            digit_run(s@, i as int) == j - i,
            forall|t: int| i <= t < j ==> is_digit_byte(#[trigger] s@[t]),
        decreases n - j,
    {
        if j >= n {
            break ;
        }
        let b = s[j];
        if !(48 <= b && b <= 57) {
            break ;
        }
        j += 1;
    }
    let k = j - i;
    if k == 0 {
        return None;
    }
    if s[i] == 48 && k > 1 {
        return None;
    }
    if k > 20 {
        return None;
    }
    proof {
        reveal_with_fuel(pow10, 21);
        assert(pow10(20) == 100000000000000000000);
    }
    let mut acc: u128 = 0;
    let mut t = i;
    while t < j
        invariant
            i <= t <= j <= n,
            n == s@.len(),
            j - i <= 20,
            forall|u: int| i <= u < j ==> is_digit_byte(#[trigger] s@[u]),
            acc == digits_val(s@, i as int, t as int),
            pow10(20) == 100000000000000000000,
        decreases j - t,
    {
        proof {
            lemma_digits_val_bound(s@, i as int, t as int);
            assert(pow10((t - i) as nat) <= pow10(19)) by {
                lemma_pow10_mono((t - i) as nat, 19);
            }
            reveal_with_fuel(pow10, 21);
            assert(pow10(19) == 10000000000000000000);
        }
        let b = s[t];
        acc = acc * 10 + ((b - 48) as u128);
        t += 1;
    }
    if acc > u64::MAX as u128 {
        return None;
    }
    Some((acc as u64, j))
}

/// Powers of ten grow with the exponent.
proof fn lemma_pow10_mono(a: nat, b: nat)
    requires
        a <= b,
    ensures
        pow10(a) <= pow10(b),
    decreases b,
{
    if a < b {
        lemma_pow10_mono(a, (b - 1) as nat);
        assert(pow10(b) == 10 * pow10((b - 1) as nat));
    }
}

fn parse_lit(s: &[u8], i: usize, lit: &str) -> (r: Option<usize>)
    requires
        i <= s@.len(),
        vstd::string::is_ascii(lit),
    ensures
        r matches Some(j) ==> spec_parse_lit(s@, i as int, ascii_seq(lit@)) == Some(j as int) && i
            < j <= s@.len(),
        r is None ==> spec_parse_lit(s@, i as int, ascii_seq(lit@)) is None,
        r is Some ==> lit@.len() > 0,
{
    proof {
        broadcast use vstd::string::is_ascii_spec_bytes;

        assert(lit.spec_bytes() =~= ascii_seq(lit@));
    }
    let lb = lit.as_bytes();
    let m = lb.len();
    let n = s.len();
    if m > n - i {
        return None;
    }
    if m == 0 {
        return None;
    }
    let mut t: usize = 0;
    while t < m
        invariant
            t <= m,
            m == lb@.len(),
            i + m <= n == s@.len(),
            lb@ == ascii_seq(lit@),
            forall|u: int| 0 <= u < t ==> s@[i + u] == lb@[u],
        decreases m - t,
    {
        if s[i + t] != lb[t] {
            proof {
                assert(s@.subrange(i as int, i + lb@.len()) != ascii_seq(lit@)) by {
                    assert(s@.subrange(i as int, i + lb@.len())[t as int] != ascii_seq(lit@)[
                        t as int
                    ]);
                }
            }
            return None;
        }
        t += 1;
    }
    proof {
        assert(s@.subrange(i as int, i + lb@.len()) =~= ascii_seq(lit@));
    }
    Some(i + m)
}

fn parse_pad2(s: &[u8], i: usize) -> (r: Option<(u64, usize)>)
    requires
        i <= s@.len(),
    ensures
        r matches Some(p) ==> spec_parse_pad2(s@, i as int) == Some((p.0 as int, p.1 as int)) && i
            < p.1 <= s@.len() && p.0 < 100,
        r is None ==> spec_parse_pad2(s@, i as int) is None,
{
    let n = s.len();
    if n - i < 2 {
        return None;
    }
    let b0 = s[i];
    let b1 = s[i + 1];
    if 48 <= b0 && b0 <= 57 && 48 <= b1 && b1 <= 57 {
        Some((10 * ((b0 - 48) as u64) + ((b1 - 48) as u64), i + 2))
    } else {
        None
    }
}

fn parse_pad4(s: &[u8], i: usize) -> (r: Option<(u64, usize)>)
    requires
        i <= s@.len(),
    ensures
        r matches Some(p) ==> spec_parse_pad4(s@, i as int) == Some((p.0 as int, p.1 as int)) && i
            < p.1 <= s@.len() && p.0 < 10000,
        r is None ==> spec_parse_pad4(s@, i as int) is None,
{
    let n = s.len();
    if n - i < 4 {
        return None;
    }
    let b0 = s[i];
    let b1 = s[i + 1];
    let b2 = s[i + 2];
    let b3 = s[i + 3];
    if 48 <= b0 && b0 <= 57 && 48 <= b1 && b1 <= 57 && 48 <= b2 && b2 <= 57 && 48 <= b3 && b3
        <= 57 {
        Some(
            (
                1000 * ((b0 - 48) as u64) + 100 * ((b1 - 48) as u64) + 10 * ((b2 - 48) as u64) + ((
                b3 - 48) as u64),
                i + 4,
            ),
        )
    } else {
        None
    }
}

fn parse_date(s: &[u8], i: usize) -> (r: Option<(Date, usize)>)
    requires
        i <= s@.len(),
    ensures
        r matches Some(p) ==> spec_parse_date(s@, i as int) == Some((p.0, p.1 as int)) && i < p.1
            <= s@.len() && p.0.wf(),
        r is None ==> spec_parse_date(s@, i as int) is None,
{
    let n = s.len();
    let (y, j) = match parse_pad4(s, i) {
        None => {
            return None;
        },
        Some(p) => p,
    };
    if !(j < n && s[j] == '-' as u8) {
        return None;
    }
    let (mo, j2) = match parse_pad2(s, j + 1) {
        None => {
            return None;
        },
        Some(p) => p,
    };
    if !(j2 < n && s[j2] == '-' as u8) {
        return None;
    }
    let (dd, j3) = match parse_pad2(s, j2 + 1) {
        None => {
            return None;
        },
        Some(p) => p,
    };
    if y < 1 {
        return None;
    }
    if !(1 <= mo && mo <= 12) {
        return None;
    }
    let dim: u64 = if mo == 2 {
        if y % 4 == 0 && (y % 100 != 0 || y % 400 == 0) {
            29
        } else {
            28
        }
    } else if mo == 4 || mo == 6 || mo == 9 || mo == 11 {
        30
    } else {
        31
    };
    if !(1 <= dd && dd <= dim) {
        return None;
    }
    proof {
        assert(dim as int == days_in_month(y as int, mo as int));
        assert(civil_wf(y as int, mo as int, dd as int));
    }
    Some((Date { year: y as i32, month: mo as u8, day: dd as u8 }, j3))
}

fn parse_price(s: &[u8], i: usize) -> (r: Option<(u64, usize)>)
    requires
        i <= s@.len(),
    ensures
        r matches Some(p) ==> spec_parse_price(s@, i as int) == Some((p.0, p.1 as int)) && i < p.1
            <= s@.len(),
        r is None ==> spec_parse_price(s@, i as int) is None,
{
    let n = s.len();
    let (ip, j) = match parse_u64(s, i) {
        None => {
            return None;
        },
        Some(p) => p,
    };
    if !(j < n && s[j] == '.' as u8) {
        return None;
    }
    let (frac, j2) = match parse_pad4(s, j + 1) {
        None => {
            return None;
        },
        Some(p) => p,
    };
    let v: u128 = (ip as u128) * 10000 + (frac as u128);
    if v > u64::MAX as u128 {
        return None;
    }
    Some((v as u64, j2))
}

fn parse_bool(s: &[u8], i: usize) -> (r: Option<(bool, usize)>)
    requires
        i <= s@.len(),
    ensures
        r matches Some(p) ==> spec_parse_bool(s@, i as int) == Some((p.0, p.1 as int)) && i < p.1
            <= s@.len(),
        r is None ==> spec_parse_bool(s@, i as int) is None,
{
    proof {
        reveal_strlit("true");
        reveal_strlit("false");
    }
    match parse_lit(s, i, "true") {
        Some(j) => Some((true, j)),
        None => match parse_lit(s, i, "false") {
            Some(j) => Some((false, j)),
            None => None,
        },
    }
}

fn parse_quote(s: &[u8], i: usize) -> (r: Option<(DailyQuote, usize)>)
    requires
        i <= s@.len(),
    ensures
        r matches Some(p) ==> spec_parse_quote(s@, i as int) == Some((p.0, p.1 as int)) && i < p.1
            <= s@.len() && p.0.date.wf(),
        r is None ==> spec_parse_quote(s@, i as int) is None,
{
    proof {
        reveal_strlit("{\"date\":\"");
        reveal_strlit("\",\"open\":");
        reveal_strlit(",\"high\":");
        reveal_strlit(",\"low\":");
        reveal_strlit(",\"close\":");
        reveal_strlit(",\"volume\":");
        reveal_strlit(",\"adjclose\":");
        reveal_strlit(",\"is_volatile\":");
        reveal_strlit("}");
        reveal(spec_parse_quote);
    }
    let j0 = match parse_lit(s, i, "{\"date\":\"") {
        None => {
            return None;
        },
        Some(j) => j,
    };
    let (date, j1) = match parse_date(s, j0) {
        None => {
            return None;
        },
        Some(p) => p,
    };
    let j2 = match parse_lit(s, j1, "\",\"open\":") {
        None => {
            return None;
        },
        Some(j) => j,
    };
    let (open, j3) = match parse_price(s, j2) {
        None => {
            return None;
        },
        Some(p) => p,
    };
    let j4 = match parse_lit(s, j3, ",\"high\":") {
        None => {
            return None;
        },
        Some(j) => j,
    };
    let (high, j5) = match parse_price(s, j4) {
        None => {
            return None;
        },
        Some(p) => p,
    };
    let j6 = match parse_lit(s, j5, ",\"low\":") {
        None => {
            return None;
        },
        Some(j) => j,
    };
    let (low, j7) = match parse_price(s, j6) {
        None => {
            return None;
        },
        Some(p) => p,
    };
    let j8 = match parse_lit(s, j7, ",\"close\":") {
        None => {
            return None;
        },
        Some(j) => j,
    };
    let (close, j9) = match parse_price(s, j8) {
        None => {
            return None;
        },
        Some(p) => p,
    };
    let j10 = match parse_lit(s, j9, ",\"volume\":") {
        None => {
            return None;
        },
        Some(j) => j,
    };
    let (volume, j11) = match parse_u64(s, j10) {
        None => {
            return None;
        },
        Some(p) => p,
    };
    let j12 = match parse_lit(s, j11, ",\"adjclose\":") {
        None => {
            return None;
        },
        Some(j) => j,
    };
    let (adjclose, j13) = match parse_price(s, j12) {
        None => {
            return None;
        },
        Some(p) => p,
    };
    let j14 = match parse_lit(s, j13, ",\"is_volatile\":") {
        None => {
            return None;
        },
        Some(j) => j,
    };
    let (is_volatile, j15) = match parse_bool(s, j14) {
        None => {
            return None;
        },
        Some(p) => p,
    };
    let j16 = match parse_lit(s, j15, "}") {
        None => {
            return None;
        },
        Some(j) => j,
    };
    Some((DailyQuote { date, open, high, low, volume, close, adjclose, is_volatile }, j16))
}

#[verifier::rlimit(100)]
fn parse_quote_seq(s: &[u8], i: usize) -> (r: Option<(Vec<DailyQuote>, usize)>)
    requires
        i <= s@.len(),
    ensures
        r matches Some(p) ==> spec_parse_quote_seq(s@, i as int) == Some((p.0@, p.1 as int)) && i
            < p.1 <= s@.len() && (forall|t: int|
            0 <= t < p.0@.len() ==> (#[trigger] p.0@[t]).date.wf()),
        r is None ==> spec_parse_quote_seq(s@, i as int) is None,
{
    let n = s.len();
    let mut acc: Vec<DailyQuote> = Vec::new();
    let mut cur = i;
    proof {
        if spec_parse_quote_seq(s@, i as int) is Some {
            let (rest, k) = spec_parse_quote_seq(s@, i as int).unwrap();
            assert(Seq::<DailyQuote>::empty() + rest =~= rest);
        }
    }
    loop
        invariant
            i <= cur <= n,
            n == s@.len(),
            forall|t: int| 0 <= t < acc@.len() ==> (#[trigger] acc@[t]).date.wf(),
            match spec_parse_quote_seq(s@, cur as int) {
                None => spec_parse_quote_seq(s@, i as int) is None,
                Some((rest, k)) => spec_parse_quote_seq(s@, i as int) == Some((acc@ + rest, k)),
            },
        decreases n - cur,
    {
        if cur >= n {
            return None;
        }
        if s[cur] == ']' as u8 {
            proof {
                assert(acc@ + Seq::<DailyQuote>::empty() =~= acc@);
            }
            return Some((acc, cur + 1));
        }
        let (q, j) = match parse_quote(s, cur) {
            None => {
                return None;
            },
            Some(p) => p,
        };
        if j >= n {
            return None;
        }
        if s[j] == ',' as u8 {
            let ghost pre = acc@;
            acc.push(q);
            proof {
                let rest2 = spec_parse_quote_seq(s@, (j + 1) as int);
                if rest2 is Some {
                    assert(pre + (seq![q] + rest2.unwrap().0) =~= acc@ + rest2.unwrap().0);
                }
            }
            cur = j + 1;
        } else if s[j] == ']' as u8 {
            let ghost pre = acc@;
            acc.push(q);
            proof {
                assert(pre + seq![q] =~= acc@);
            }
            return Some((acc, j + 1));
        } else {
            return None;
        }
    }
}

/// Decodes a wire payload back into a report. Succeeds exactly on the
/// canonical encodings; any other payload — a missing or reordered field,
/// a malformed number or date, trailing bytes — fails with `SchemaError`
/// rather than defaulting anything.
#[verifier::rlimit(100)]
pub fn decode_report(s: &[u8]) -> (r: Result<StockAnalysis, SchemaError>)
    ensures
        r matches Ok(a) ==> spec_parse_report(s@) == Some(a@) && a.dates_wf(),
        r is Err ==> r == Err::<StockAnalysis, SchemaError>(SchemaError::Malformed)
            && spec_parse_report(s@) is None,
{
    proof {
        reveal_strlit("{\"min_close_price\":");
        reveal_strlit(",\"max_close_price\":");
        reveal_strlit(",\"min_close_date\":\"");
        reveal_strlit("\",\"max_close_date\":\"");
        reveal_strlit("\",\"start_date\":\"");
        reveal_strlit("\",\"end_date\":\"");
        reveal_strlit("\",\"min_low_price\":");
        reveal_strlit(",\"max_high_price\":");
        reveal_strlit(",\"regular_quotes\":[");
        reveal_strlit(",\"volatile_quotes\":[");
        reveal_strlit("}");
        reveal(spec_parse_scalars);
    }
    let n = s.len();
    let j0 = match parse_lit(s, 0, "{\"min_close_price\":") {
        None => {
            return Err(SchemaError::Malformed);
        },
        Some(j) => j,
    };
    let (min_close_price, j1) = match parse_price(s, j0) {
        None => {
            return Err(SchemaError::Malformed);
        },
        Some(p) => p,
    };
    let j2 = match parse_lit(s, j1, ",\"max_close_price\":") {
        None => {
            return Err(SchemaError::Malformed);
        },
        Some(j) => j,
    };
    let (max_close_price, j3) = match parse_price(s, j2) {
        None => {
            return Err(SchemaError::Malformed);
        },
        Some(p) => p,
    };
    let j4 = match parse_lit(s, j3, ",\"min_close_date\":\"") {
        None => {
            return Err(SchemaError::Malformed);
        },
        Some(j) => j,
    };
    let (min_close_date, j5) = match parse_date(s, j4) {
        None => {
            return Err(SchemaError::Malformed);
        },
        Some(p) => p,
    };
    let j6 = match parse_lit(s, j5, "\",\"max_close_date\":\"") {
        None => {
            return Err(SchemaError::Malformed);
        },
        Some(j) => j,
    };
    let (max_close_date, j7) = match parse_date(s, j6) {
        None => {
            return Err(SchemaError::Malformed);
        },
        Some(p) => p,
    };
    let j8 = match parse_lit(s, j7, "\",\"start_date\":\"") {
        None => {
            return Err(SchemaError::Malformed);
        },
        Some(j) => j,
    };
    let (start_date, j9) = match parse_date(s, j8) {
        None => {
            return Err(SchemaError::Malformed);
        },
        Some(p) => p,
    };
    let j10 = match parse_lit(s, j9, "\",\"end_date\":\"") {
        None => {
            return Err(SchemaError::Malformed);
        },
        Some(j) => j,
    };
    let (end_date, j11) = match parse_date(s, j10) {
        None => {
            return Err(SchemaError::Malformed);
        },
        Some(p) => p,
    };
    let j12 = match parse_lit(s, j11, "\",\"min_low_price\":") {
        None => {
            return Err(SchemaError::Malformed);
        },
        Some(j) => j,
    };
    let (min_low_price, j13) = match parse_price(s, j12) {
        None => {
            return Err(SchemaError::Malformed);
        },
        Some(p) => p,
    };
    let j14 = match parse_lit(s, j13, ",\"max_high_price\":") {
        None => {
            return Err(SchemaError::Malformed);
        },
        Some(j) => j,
    };
    let (max_high_price, j15) = match parse_price(s, j14) {
        None => {
            return Err(SchemaError::Malformed);
        },
        Some(p) => p,
    };
    let j16 = match parse_lit(s, j15, ",\"regular_quotes\":[") {
        None => {
            return Err(SchemaError::Malformed);
        },
        Some(j) => j,
    };
    let (regular_quotes, j17) = match parse_quote_seq(s, j16) {
        None => {
            return Err(SchemaError::Malformed);
        },
        Some(p) => p,
    };
    let j18 = match parse_lit(s, j17, ",\"volatile_quotes\":[") {
        None => {
            return Err(SchemaError::Malformed);
        },
        Some(j) => j,
    };
    let (volatile_quotes, j19) = match parse_quote_seq(s, j18) {
        None => {
            return Err(SchemaError::Malformed);
        },
        Some(p) => p,
    };
    let j20 = match parse_lit(s, j19, "}") {
        None => {
            return Err(SchemaError::Malformed);
        },
        Some(j) => j,
    };
    if j20 != n {
        return Err(SchemaError::Malformed);
    }
    let out = StockAnalysis {
        min_close_price,
        max_close_price,
        min_close_date,
        max_close_date,
        start_date,
        end_date,
        min_low_price,
        max_high_price,
        regular_quotes,
        volatile_quotes,
    };
    proof {
        assert(spec_parse_report(s@) == Some(out@));
    }
    Ok(out)
}

} // verus!
