//! The wire form of a report: a fixed JSON schema over bytes. The encoder
//! prints the canonical form; the decoder accepts exactly the canonical
//! encodings and rejects everything else with `SchemaError`. Dates travel
//! as `YYYY-MM-DD` strings; prices as decimal numbers with four fractional
//! digits (the fixed-point scale).

use vstd::prelude::*;
use vstd::string::StringSliceAdditionalSpecFns;
use crate::analysis::{AnalysisView, StockAnalysis};
use crate::date::Date;
use crate::quote::DailyQuote;

verus! {

/// The bytes of an ASCII character sequence, one byte per character.
pub open spec fn ascii_seq(s: Seq<char>) -> Seq<u8> {
    Seq::new(s.len(), |i: int| s[i] as u8)
}

/// The decimal digits of `n`, most significant first, no leading zeros.
pub open spec fn spec_dec_digits(n: nat) -> Seq<u8>
    decreases n,
{
    if n < 10 {
        seq![(48 + n) as u8]
    } else {
        spec_dec_digits(n / 10).push((48 + n % 10) as u8)
    }
}

/// Two decimal digits, zero-padded (for `n` under 100).
pub open spec fn spec_pad2(n: int) -> Seq<u8> {
    seq![(48 + n / 10 % 10) as u8, (48 + n % 10) as u8]
}

/// Four decimal digits, zero-padded (for `n` under 10000).
pub open spec fn spec_pad4(n: int) -> Seq<u8> {
    seq![
        (48 + n / 1000 % 10) as u8,
        (48 + n / 100 % 10) as u8,
        (48 + n / 10 % 10) as u8,
        (48 + n % 10) as u8,
    ]
}

/// A fixed-point price as a JSON number: the whole part, a point, and
/// exactly four fractional digits.
pub open spec fn spec_price_bytes(p: u64) -> Seq<u8> {
    spec_dec_digits((p / 10000) as nat) + seq![('.' as u8)] + spec_pad4((p % 10000) as int)
}

/// A date as `YYYY-MM-DD`.
pub open spec fn spec_date_bytes(d: Date) -> Seq<u8> {
    spec_pad4(d.year as int) + seq![('-' as u8)] + spec_pad2(d.month as int) + seq![('-' as u8)]
        + spec_pad2(d.day as int)
}

pub open spec fn spec_bool_bytes(b: bool) -> Seq<u8> {
    if b {
        ascii_seq("true"@)
    } else {
        ascii_seq("false"@)
    }
}

/// One day as a JSON object, fields in the schema's order.
pub open spec fn spec_quote_bytes(q: DailyQuote) -> Seq<u8> {
    ascii_seq("{\"date\":\""@) + spec_date_bytes(q.date) + ascii_seq("\",\"open\":"@)
        + spec_price_bytes(q.open) + ascii_seq(",\"high\":"@) + spec_price_bytes(q.high)
        + ascii_seq(",\"low\":"@) + spec_price_bytes(q.low) + ascii_seq(",\"close\":"@)
        + spec_price_bytes(q.close) + ascii_seq(",\"volume\":"@) + spec_dec_digits(q.volume as nat)
        + ascii_seq(",\"adjclose\":"@) + spec_price_bytes(q.adjclose) + ascii_seq(
        ",\"is_volatile\":"@,
    ) + spec_bool_bytes(q.is_volatile) + ascii_seq("}"@)
}

/// A series as the comma-separated bodies of a JSON array (without the
/// surrounding brackets, which the report supplies).
pub open spec fn spec_quote_list_bytes(qs: Seq<DailyQuote>) -> Seq<u8>
    decreases qs.len(),
{
    if qs.len() == 0 {
        Seq::empty()
    } else if qs.len() == 1 {
        spec_quote_bytes(qs[0])
    } else {
        spec_quote_bytes(qs[0]) + seq![(',' as u8)] + spec_quote_list_bytes(qs.drop_first())
    }
}

/// The report's scalar fields as wire bytes, through the opening bracket
/// of the regular series.
pub open spec fn spec_report_head_bytes(v: AnalysisView) -> Seq<u8> {
    ascii_seq("{\"min_close_price\":"@) + spec_price_bytes(v.min_close_price) + ascii_seq(
        ",\"max_close_price\":"@,
    ) + spec_price_bytes(v.max_close_price) + ascii_seq(",\"min_close_date\":\""@)
        + spec_date_bytes(v.min_close_date) + ascii_seq("\",\"max_close_date\":\""@)
        + spec_date_bytes(v.max_close_date) + ascii_seq("\",\"start_date\":\""@) + spec_date_bytes(
        v.start_date,
    ) + ascii_seq("\",\"end_date\":\""@) + spec_date_bytes(v.end_date) + ascii_seq(
        "\",\"min_low_price\":"@,
    ) + spec_price_bytes(v.min_low_price) + ascii_seq(",\"max_high_price\":"@) + spec_price_bytes(
        v.max_high_price,
    ) + ascii_seq(",\"regular_quotes\":["@)
}

/// A whole report as the wire JSON object, fields in the schema's order.
pub open spec fn spec_report_bytes(v: AnalysisView) -> Seq<u8> {
    spec_report_head_bytes(v) + spec_quote_list_bytes(v.regular_quotes) + ascii_seq(
        "],\"volatile_quotes\":["@,
    ) + spec_quote_list_bytes(v.volatile_quotes) + ascii_seq("]}"@)
}

// ---------------------------------------------------------------------
// Encoding.
// ---------------------------------------------------------------------

/// Appends an ASCII literal's bytes.
fn push_lit(out: &mut Vec<u8>, lit: &str)
    requires
        vstd::string::is_ascii(lit),
    ensures
        final(out)@ == old(out)@ + ascii_seq(lit@),
{
    proof {
        broadcast use vstd::string::is_ascii_spec_bytes;

        assert(lit.spec_bytes() =~= ascii_seq(lit@));
    }
    let bytes = lit.as_bytes();
    let n = bytes.len();
    let mut i: usize = 0;
    while i < n
        invariant
            n == bytes@.len(),
            i <= n,
            bytes@ == ascii_seq(lit@),
            out@ == old(out)@ + bytes@.take(i as int),
        decreases n - i,
    {
        out.push(bytes[i]);
        proof {
            assert(out@ =~= old(out)@ + bytes@.take(i + 1 as int));
        }
        i += 1;
    }
    proof {
        assert(out@ =~= old(out)@ + ascii_seq(lit@));
    }
}

/// Appends the decimal digits of `n`.
fn push_u64(out: &mut Vec<u8>, n: u64)
    ensures
        final(out)@ == old(out)@ + spec_dec_digits(n as nat),
{
    let mut digits: Vec<u8> = Vec::new();
    let mut m = n;
    proof {
        assert(spec_dec_digits(n as nat) =~= spec_dec_digits(n as nat) + Seq::<u8>::empty());
    }
    loop
        invariant_except_break
            if m > 0 {
                spec_dec_digits(n as nat) == spec_dec_digits(m as nat) + digits@
            } else if digits@.len() > 0 {
                spec_dec_digits(n as nat) == digits@
            } else {
                n == 0
            },
        ensures
            spec_dec_digits(n as nat) == digits@,
        decreases m, (if digits@.len() == 0 { 1int } else { 0int }),
    {
        if m == 0 && digits.len() > 0 {
            break ;
        }
        let d: u8 = (m % 10) as u8;
        let m2 = m / 10;
        proof {
            if m >= 10 {
                assert(spec_dec_digits(m as nat) == spec_dec_digits((m / 10) as nat).push(
                    (48 + m % 10) as u8,
                ));
                assert(spec_dec_digits((m2) as nat) + (seq![(48 + m % 10) as u8] + digits@)
                    =~= spec_dec_digits(m as nat) + digits@);
            } else {
                assert(spec_dec_digits(m as nat) == seq![(48 + m % 10) as u8]);
                assert(seq![(48 + m % 10) as u8] + digits@ =~= spec_dec_digits(m as nat)
                    + digits@);
            }
        }
        let ghost pre_digits = digits@;
        digits.insert(0, 48 + d);
        proof {
            assert(digits@ =~= seq![(48 + (m as nat) % 10) as u8] + pre_digits);
        }
        m = m2;
    }
    let k = digits.len();
    let mut i: usize = 0;
    while i < k
        invariant
            k == digits@.len(),
            i <= k,
            digits@ == spec_dec_digits(n as nat),
            out@ == old(out)@ + digits@.take(i as int),
        decreases k - i,
    {
        out.push(digits[i]);
        proof {
            assert(out@ =~= old(out)@ + digits@.take(i + 1 as int));
        }
        i += 1;
    }
    proof {
        assert(out@ =~= old(out)@ + spec_dec_digits(n as nat));
    }
}

/// Appends two zero-padded decimal digits.
fn push_pad2(out: &mut Vec<u8>, n: u64)
    requires
        n < 100,
    ensures
        final(out)@ == old(out)@ + spec_pad2(n as int),
{
    out.push(48 + (n / 10) as u8);
    out.push(48 + (n % 10) as u8);
    proof {
        assert(out@ =~= old(out)@ + spec_pad2(n as int));
    }
}

/// Appends four zero-padded decimal digits.
fn push_pad4(out: &mut Vec<u8>, n: u64)
    requires
        n < 10000,
    ensures
        final(out)@ == old(out)@ + spec_pad4(n as int),
{
    out.push(48 + (n / 1000) as u8);
    out.push(48 + (n / 100 % 10) as u8);
    out.push(48 + (n / 10 % 10) as u8);
    out.push(48 + (n % 10) as u8);
    proof {
        assert(out@ =~= old(out)@ + spec_pad4(n as int));
    }
}

/// Appends a fixed-point price as a JSON number.
fn push_price(out: &mut Vec<u8>, p: u64)
    ensures
        final(out)@ == old(out)@ + spec_price_bytes(p),
{
    push_u64(out, p / 10000);
    out.push('.' as u8);
    push_pad4(out, p % 10000);
    proof {
        assert(out@ =~= old(out)@ + spec_price_bytes(p));
    }
}

/// Appends a date as `YYYY-MM-DD`.
fn push_date(out: &mut Vec<u8>, d: &Date)
    requires
        d.wf(),
    ensures
        final(out)@ == old(out)@ + spec_date_bytes(*d),
{
    push_pad4(out, d.year as u64);
    out.push('-' as u8);
    push_pad2(out, d.month as u64);
    out.push('-' as u8);
    push_pad2(out, d.day as u64);
    proof {
        assert(out@ =~= old(out)@ + spec_date_bytes(*d));
    }
}

fn push_bool(out: &mut Vec<u8>, b: bool)
    ensures
        final(out)@ == old(out)@ + spec_bool_bytes(b),
{
    if b {
        proof {
            reveal_strlit("true");
        }
        push_lit(out, "true");
    } else {
        proof {
            reveal_strlit("false");
        }
        push_lit(out, "false");
    }
}

/// Appends one day as a JSON object.
#[verifier::rlimit(100)]
fn push_quote(out: &mut Vec<u8>, q: &DailyQuote)
    requires
        q.date.wf(),
    ensures
        final(out)@ == old(out)@ + spec_quote_bytes(*q),
{
    proof {
        reveal_strlit("{\"date\":\"");
        reveal_strlit("\",\"open\":");
        reveal_strlit(",\"high\":");
        reveal_strlit(",\"low\":");
        reveal_strlit(",\"close\":");
        reveal_strlit(",\"volume\":");
        reveal_strlit(",\"adjclose\":");
        reveal_strlit(",\"is_volatile\":");
        reveal_strlit("}");
    }
    push_lit(out, "{\"date\":\"");
    push_date(out, &q.date);
    push_lit(out, "\",\"open\":");
    push_price(out, q.open);
    push_lit(out, ",\"high\":");
    push_price(out, q.high);
    push_lit(out, ",\"low\":");
    push_price(out, q.low);
    push_lit(out, ",\"close\":");
    push_price(out, q.close);
    push_lit(out, ",\"volume\":");
    push_u64(out, q.volume);
    push_lit(out, ",\"adjclose\":");
    push_price(out, q.adjclose);
    push_lit(out, ",\"is_volatile\":");
    push_bool(out, q.is_volatile);
    push_lit(out, "}");
    proof {
        assert(out@ =~= old(out)@ + spec_quote_bytes(*q));
    }
}

/// Relates a series' wire bytes to one more day at its end.
proof fn lemma_quote_list_push(qs: Seq<DailyQuote>, q: DailyQuote)
    ensures
        spec_quote_list_bytes(qs.push(q)) == if qs.len() == 0 {
            spec_quote_bytes(q)
        } else {
            spec_quote_list_bytes(qs) + seq![(',' as u8)] + spec_quote_bytes(q)
        },
    decreases qs.len(),
{
    let s2 = qs.push(q);
    if qs.len() == 0 {
        assert(spec_quote_list_bytes(s2) == spec_quote_bytes(q));
    } else {
        assert(s2.drop_first() =~= qs.drop_first().push(q));
        lemma_quote_list_push(qs.drop_first(), q);
        if qs.len() == 1 {
            assert(spec_quote_list_bytes(s2) =~= spec_quote_list_bytes(qs) + seq![(',' as u8)]
                + spec_quote_bytes(q));
        } else {
            assert(spec_quote_list_bytes(s2) =~= spec_quote_list_bytes(qs) + seq![(',' as u8)]
                + spec_quote_bytes(q));
        }
    }
}

/// Appends a series' days, comma-separated.
fn push_quote_list(out: &mut Vec<u8>, qs: &Vec<DailyQuote>)
    requires
        forall|i: int| 0 <= i < qs@.len() ==> (#[trigger] qs@[i]).date.wf(),
    ensures
        final(out)@ == old(out)@ + spec_quote_list_bytes(qs@),
{
    let n = qs.len();
    let mut i: usize = 0;
    while i < n
        invariant
            n == qs@.len(),
            i <= n,
            forall|j: int| 0 <= j < qs@.len() ==> (#[trigger] qs@[j]).date.wf(),
            out@ == old(out)@ + spec_quote_list_bytes(qs@.take(i as int)),
        decreases n - i,
    {
        if i > 0 {
            out.push(',' as u8);
        }
        push_quote(out, &qs[i]);
        proof {
            assert(qs@.take(i + 1 as int) =~= qs@.take(i as int).push(qs@[i as int]));
            lemma_quote_list_push(qs@.take(i as int), qs@[i as int]);
            assert(out@ =~= old(out)@ + spec_quote_list_bytes(qs@.take(i + 1 as int)));
        }
        i += 1;
    }
    proof {
        assert(qs@.take(n as int) =~= qs@);
    }
}

/// Encodes a report as its wire JSON bytes (ASCII, hence valid UTF-8).
#[verifier::rlimit(100)]
pub fn encode_report(a: &StockAnalysis) -> (r: Vec<u8>)
    requires
        a.dates_wf(),
    ensures
        r@ == spec_report_bytes(a@),
{
    proof {
        reveal_strlit("{\"min_close_price\":");
        reveal_strlit(",\"max_close_price\":");
        reveal_strlit(",\"min_close_date\":\"");
        reveal_strlit("\",\"max_close_date\":\"");
        reveal_strlit("\",\"start_date\":\"");
        reveal_strlit("\",\"end_date\":\"");
        reveal_strlit("\",\"min_low_price\":");
        reveal_strlit(",\"max_high_price\":");
        reveal_strlit(",\"regular_quotes\":[");
        reveal_strlit("],\"volatile_quotes\":[");
        reveal_strlit("]}");
    }
    let mut out: Vec<u8> = Vec::new();
    push_lit(&mut out, "{\"min_close_price\":");
    push_price(&mut out, a.min_close_price);
    push_lit(&mut out, ",\"max_close_price\":");
    push_price(&mut out, a.max_close_price);
    push_lit(&mut out, ",\"min_close_date\":\"");
    push_date(&mut out, &a.min_close_date);
    push_lit(&mut out, "\",\"max_close_date\":\"");
    push_date(&mut out, &a.max_close_date);
    push_lit(&mut out, "\",\"start_date\":\"");
    push_date(&mut out, &a.start_date);
    push_lit(&mut out, "\",\"end_date\":\"");
    push_date(&mut out, &a.end_date);
    push_lit(&mut out, "\",\"min_low_price\":");
    push_price(&mut out, a.min_low_price);
    push_lit(&mut out, ",\"max_high_price\":");
    push_price(&mut out, a.max_high_price);
    push_lit(&mut out, ",\"regular_quotes\":[");
    push_quote_list(&mut out, &a.regular_quotes);
    push_lit(&mut out, "],\"volatile_quotes\":[");
    push_quote_list(&mut out, &a.volatile_quotes);
    push_lit(&mut out, "]}");
    proof {
        assert(out@ =~= spec_report_bytes(a@));
    }
    out
}

} // verus!
