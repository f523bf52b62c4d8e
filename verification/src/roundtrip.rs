//! The codec round trip: decoding a report's canonical wire bytes yields
//! the report again, field for field. Each printer below has a lemma that
//! inverts it against the corresponding parser, and the public law at the
//! end composes them over the whole schema.

use vstd::prelude::*;
use crate::analysis::AnalysisView;
use crate::codec::{
    ascii_seq, spec_bool_bytes, spec_date_bytes, spec_dec_digits, spec_pad2, spec_pad4,
    spec_price_bytes, spec_quote_bytes, spec_quote_list_bytes, spec_report_bytes,
    spec_report_head_bytes,
};
use crate::date::Date;
use crate::decode::{
    digit_run, digits_val, is_digit_byte, pow10, spec_parse_bool, spec_parse_date, spec_parse_lit,
    spec_parse_pad2, spec_parse_pad4, spec_parse_price, spec_parse_quote, spec_parse_quote_seq,
    spec_parse_report, spec_parse_scalars, spec_parse_u64,
};
use crate::quote::DailyQuote;

verus! {

/// Splits a subrange equality over a concatenation into its two halves.
proof fn lemma_sub_split(s: Seq<u8>, i: int, a: Seq<u8>, b: Seq<u8>)
    requires
        0 <= i,
        i + a.len() + b.len() <= s.len(),
        s.subrange(i, i + a.len() + b.len()) == a + b,
    ensures
        s.subrange(i, i + a.len()) == a,
        s.subrange(i + a.len(), i + a.len() + b.len()) == b,
{
    assert(s.subrange(i, i + a.len()) =~= a) by {
        assert forall|t: int| 0 <= t < a.len() implies s.subrange(i, i + a.len())[t] == a[t] by {
            assert(s.subrange(i, i + a.len() + b.len())[t] == (a + b)[t]);
        }
    }
    assert(s.subrange(i + a.len(), i + a.len() + b.len()) =~= b) by {
        assert forall|t: int| 0 <= t < b.len() implies s.subrange(
            i + a.len(),
            i + a.len() + b.len(),
        )[t] == b[t] by {
            assert(s.subrange(i, i + a.len() + b.len())[a.len() + t] == (a + b)[a.len() + t]);
            assert(s.subrange(i, i + a.len() + b.len())[a.len() + t] == s[i + a.len() + t]);
            assert(s.subrange(i + a.len(), i + a.len() + b.len())[t] == s[i + a.len() + t]);
        }
    }
}

/// A printed number is digits only, one to twenty of them for a `u64`,
/// and starts with a zero only for the value zero.
proof fn lemma_dec_digits_props(n: nat)
    ensures
        spec_dec_digits(n).len() >= 1,
        forall|t: int|
            0 <= t < spec_dec_digits(n).len() ==> is_digit_byte(#[trigger] spec_dec_digits(n)[t]),
        n > 0 ==> spec_dec_digits(n)[0] != 48,
        n == 0 ==> spec_dec_digits(n) == seq![48u8],
    decreases n,
{
    if n >= 10 {
        lemma_dec_digits_props(n / 10);
    }
}

/// A number below the `k`-th power of ten prints in at most `k` digits.
proof fn lemma_dec_digits_len(n: nat, k: nat)
    requires
        k >= 1,
        n < pow10(k),
    ensures
        spec_dec_digits(n).len() <= k,
    decreases n,
{
    if n >= 10 {
        assert(pow10(k) == 10 * pow10((k - 1) as nat));
        lemma_dec_digits_len(n / 10, (k - 1) as nat);
    }
}

/// Reading back the printed digits of `n` recomputes `n`.
proof fn lemma_dec_digits_val(s: Seq<u8>, i: int, n: nat)
    requires
        0 <= i,
        i + spec_dec_digits(n).len() <= s.len(),
        s.subrange(i, i + spec_dec_digits(n).len()) == spec_dec_digits(n),
    ensures
        digits_val(s, i, i + spec_dec_digits(n).len()) == n,
    decreases n,
{
    let d = spec_dec_digits(n);
    let j = i + d.len();
    if n < 10 {
        assert(s[i] == d[0]);
        assert(digits_val(s, i, j) == digits_val(s, i, i) * 10 + (s[i] - 48));
    } else {
        let dp = spec_dec_digits(n / 10);
        assert(d == dp.push((48 + n % 10) as u8));
        assert(s.subrange(i, i + dp.len()) =~= dp) by {
            assert forall|t: int| 0 <= t < dp.len() implies s.subrange(i, i + dp.len())[t]
                == dp[t] by {
                assert(s.subrange(i, j)[t] == d[t]);
            }
        }
        lemma_dec_digits_val(s, i, n / 10);
        assert(s[j - 1] == d[d.len() - 1]);
        assert(digits_val(s, i, j) == digits_val(s, i, j - 1) * 10 + (s[j - 1] - 48));
    }
}

/// A run of digits bounded by a non-digit (or the end) is exactly the
/// run the scanner sees.
proof fn lemma_digit_run_exact(s: Seq<u8>, i: int, len: int)
    requires
        0 <= i,
        len >= 0,
        i + len <= s.len(),
        forall|t: int| i <= t < i + len ==> is_digit_byte(#[trigger] s[t]),
        i + len == s.len() || !is_digit_byte(s[i + len]),
    ensures
        digit_run(s, i) == len,
    decreases len,
{
    if len > 0 {
        lemma_digit_run_exact(s, i + 1, len - 1);
    }
}

/// Parsing inverts printing for a `u64`, provided no digit follows the
/// printed digits.
proof fn lemma_parse_u64_inverts(s: Seq<u8>, i: int, n: u64)
    requires
        0 <= i,
        i + spec_dec_digits(n as nat).len() <= s.len(),
        s.subrange(i, i + spec_dec_digits(n as nat).len()) == spec_dec_digits(n as nat),
        i + spec_dec_digits(n as nat).len() == s.len() || !is_digit_byte(
            s[i + spec_dec_digits(n as nat).len()],
        ),
    ensures
        spec_parse_u64(s, i) == Some((n, i + spec_dec_digits(n as nat).len())),
{
    let d = spec_dec_digits(n as nat);
    lemma_dec_digits_props(n as nat);
    assert(forall|t: int| i <= t < i + d.len() ==> is_digit_byte(#[trigger] s[t])) by {
        assert(forall|t: int|
            i <= t < i + d.len() ==> #[trigger] s[t] == s.subrange(i, i + d.len())[t - i]);
    }
    lemma_digit_run_exact(s, i, d.len() as int);
    reveal_with_fuel(pow10, 21);
    lemma_dec_digits_len(n as nat, 20);
    assert(s[i] == d[0]);
    lemma_dec_digits_val(s, i, n as nat);
}

/// Parsing inverts printing for two zero-padded digits.
proof fn lemma_parse_pad2_inverts(s: Seq<u8>, i: int, v: int)
    requires
        0 <= i,
        0 <= v < 100,
        i + 2 <= s.len(),
        s.subrange(i, i + 2) == spec_pad2(v),
    ensures
        spec_parse_pad2(s, i) == Some((v, i + 2)),
{
    assert(s[i] == spec_pad2(v)[0]);
    assert(s[i + 1] == spec_pad2(v)[1]);
    assert(10 * (v / 10 % 10) + v % 10 == v);
}

/// Parsing inverts printing for four zero-padded digits.
proof fn lemma_parse_pad4_inverts(s: Seq<u8>, i: int, v: int)
    requires
        0 <= i,
        0 <= v < 10000,
        i + 4 <= s.len(),
        s.subrange(i, i + 4) == spec_pad4(v),
    ensures
        spec_parse_pad4(s, i) == Some((v, i + 4)),
{
    assert(s[i] == spec_pad4(v)[0]);
    assert(s[i + 1] == spec_pad4(v)[1]);
    assert(s[i + 2] == spec_pad4(v)[2]);
    assert(s[i + 3] == spec_pad4(v)[3]);
    vstd::arithmetic::div_mod::lemma_div_denominator(v, 10, 10);
    vstd::arithmetic::div_mod::lemma_div_denominator(v, 100, 10);
    assert(v / 10 / 10 == v / 100);
    assert(v / 100 / 10 == v / 1000);
    assert(1000 * (v / 1000 % 10) + 100 * (v / 100 % 10) + 10 * (v / 10 % 10) + v % 10 == v);
}

/// Parsing inverts printing for a fixed-point price, provided the printed
/// bytes stand in `s` at `i`.
proof fn lemma_parse_price_inverts(s: Seq<u8>, i: int, p: u64)
    requires
        0 <= i,
        i + spec_price_bytes(p).len() <= s.len(),
        s.subrange(i, i + spec_price_bytes(p).len()) == spec_price_bytes(p),
    ensures
        spec_parse_price(s, i) == Some((p, i + spec_price_bytes(p).len())),
{
    let ip = (p / 10000) as nat;
    let d = spec_dec_digits(ip);
    let frac = (p % 10000) as int;
    let pb = spec_price_bytes(p);
    lemma_sub_split(s, i, d + seq![('.' as u8)], spec_pad4(frac));
    lemma_sub_split(s, i, d, seq![('.' as u8)]);
    assert(s[i + d.len()] == ('.' as u8)) by {
        assert(s.subrange(i + d.len(), i + d.len() + 1)[0] == ('.' as u8));
    }
    lemma_parse_u64_inverts(s, i, (p / 10000) as u64);
    lemma_parse_pad4_inverts(s, i + d.len() + 1, frac);
    assert((p / 10000) * 10000 + (p % 10000) == p);
    assert(pb.len() == d.len() + 5);
}

/// Parsing inverts printing for a boolean.
proof fn lemma_parse_bool_inverts(s: Seq<u8>, i: int, b: bool)
    requires
        0 <= i,
        i + spec_bool_bytes(b).len() <= s.len(),
        s.subrange(i, i + spec_bool_bytes(b).len()) == spec_bool_bytes(b),
    ensures
        spec_parse_bool(s, i) == Some((b, i + spec_bool_bytes(b).len())),
{
    reveal_strlit("true");
    reveal_strlit("false");
    if b {
        assert(spec_parse_lit(s, i, ascii_seq("true"@)) == Some(i + 4));
    } else {
        assert(s[i] == ascii_seq("false"@)[0]);
        assert(spec_parse_lit(s, i, ascii_seq("true"@)) is None) by {
            if spec_parse_lit(s, i, ascii_seq("true"@)) is Some {
                assert(s.subrange(i, i + 4)[0] == ascii_seq("true"@)[0]);
            }
        }
        assert(spec_parse_lit(s, i, ascii_seq("false"@)) == Some(i + 5));
    }
}

/// Parsing inverts printing for a date.
proof fn lemma_parse_date_inverts(s: Seq<u8>, i: int, d: Date)
    requires
        0 <= i,
        d.wf(),
        i + 10 <= s.len(),
        s.subrange(i, i + 10) == spec_date_bytes(d),
    ensures
        spec_parse_date(s, i) == Some((d, i + 10)),
{
    let y = d.year as int;
    let mo = d.month as int;
    let dd = d.day as int;
    assert(spec_date_bytes(d).len() == 10);
    lemma_sub_split(
        s,
        i,
        spec_pad4(y) + seq![('-' as u8)] + spec_pad2(mo) + seq![('-' as u8)],
        spec_pad2(dd),
    );
    lemma_sub_split(s, i, spec_pad4(y) + seq![('-' as u8)] + spec_pad2(mo), seq![('-' as u8)]);
    lemma_sub_split(s, i, spec_pad4(y) + seq![('-' as u8)], spec_pad2(mo));
    lemma_sub_split(s, i, spec_pad4(y), seq![('-' as u8)]);
    assert(s[i + 4] == ('-' as u8)) by {
        assert(s.subrange(i + 4, i + 5)[0] == ('-' as u8));
    }
    assert(s[i + 7] == ('-' as u8)) by {
        assert(s.subrange(i + 7, i + 8)[0] == ('-' as u8));
    }
    lemma_parse_pad4_inverts(s, i, y);
    lemma_parse_pad2_inverts(s, i + 5, mo);
    lemma_parse_pad2_inverts(s, i + 8, dd);
}

/// Parsing inverts printing for one day object.
#[verifier::rlimit(100)]
proof fn lemma_parse_quote_inverts(s: Seq<u8>, i: int, q: DailyQuote)
    requires
        0 <= i,
        q.date.wf(),
        i + spec_quote_bytes(q).len() <= s.len(),
        s.subrange(i, i + spec_quote_bytes(q).len()) == spec_quote_bytes(q),
    ensures
        spec_parse_quote(s, i) == Some((q, i + spec_quote_bytes(q).len())),
{
    reveal(spec_parse_quote);
    reveal_strlit("{\"date\":\"");
    reveal_strlit("\",\"open\":");
    reveal_strlit(",\"high\":");
    reveal_strlit(",\"low\":");
    reveal_strlit(",\"close\":");
    reveal_strlit(",\"volume\":");
    reveal_strlit(",\"adjclose\":");
    reveal_strlit(",\"is_volatile\":");
    reveal_strlit("}");
    let l1 = ascii_seq("{\"date\":\""@);
    let l2 = ascii_seq("\",\"open\":"@);
    let l3 = ascii_seq(",\"high\":"@);
    let l4 = ascii_seq(",\"low\":"@);
    let l5 = ascii_seq(",\"close\":"@);
    let l6 = ascii_seq(",\"volume\":"@);
    let l7 = ascii_seq(",\"adjclose\":"@);
    let l8 = ascii_seq(",\"is_volatile\":"@);
    let l9 = ascii_seq("}"@);
    let db = spec_date_bytes(q.date);
    let po = spec_price_bytes(q.open);
    let ph = spec_price_bytes(q.high);
    let pl = spec_price_bytes(q.low);
    let pc = spec_price_bytes(q.close);
    let vb = spec_dec_digits(q.volume as nat);
    let pa = spec_price_bytes(q.adjclose);
    let bb = spec_bool_bytes(q.is_volatile);
    let p1 = l1;
    let p2 = p1 + db;
    let p3 = p2 + l2;
    let p4 = p3 + po;
    let p5 = p4 + l3;
    let p6 = p5 + ph;
    let p7 = p6 + l4;
    let p8 = p7 + pl;
    let p9 = p8 + l5;
    let p10 = p9 + pc;
    let p11 = p10 + l6;
    let p12 = p11 + vb;
    let p13 = p12 + l7;
    let p14 = p13 + pa;
    let p15 = p14 + l8;
    let p16 = p15 + bb;
    let p17 = p16 + l9;
    assert(spec_quote_bytes(q) == p17);
    lemma_sub_split(s, i, p16, l9);
    lemma_sub_split(s, i, p15, bb);
    lemma_sub_split(s, i, p14, l8);
    lemma_sub_split(s, i, p13, pa);
    lemma_sub_split(s, i, p12, l7);
    lemma_sub_split(s, i, p11, vb);
    lemma_sub_split(s, i, p10, l6);
    lemma_sub_split(s, i, p9, pc);
    lemma_sub_split(s, i, p8, l5);
    lemma_sub_split(s, i, p7, pl);
    lemma_sub_split(s, i, p6, l4);
    lemma_sub_split(s, i, p5, ph);
    lemma_sub_split(s, i, p4, l3);
    lemma_sub_split(s, i, p3, po);
    lemma_sub_split(s, i, p2, l2);
    lemma_sub_split(s, i, p1, db);
    assert(spec_parse_lit(s, i, l1) == Some(i + p1.len()));
    lemma_parse_date_inverts(s, i + p1.len(), q.date);
    assert(spec_parse_lit(s, i + p2.len(), l2) == Some(i + p3.len()));
    lemma_parse_price_inverts(s, i + p3.len(), q.open);
    assert(spec_parse_lit(s, i + p4.len(), l3) == Some(i + p5.len()));
    lemma_parse_price_inverts(s, i + p5.len(), q.high);
    assert(spec_parse_lit(s, i + p6.len(), l4) == Some(i + p7.len()));
    lemma_parse_price_inverts(s, i + p7.len(), q.low);
    assert(spec_parse_lit(s, i + p8.len(), l5) == Some(i + p9.len()));
    lemma_parse_price_inverts(s, i + p9.len(), q.close);
    assert(spec_parse_lit(s, i + p10.len(), l6) == Some(i + p11.len()));
    assert(s[i + p12.len()] == (',' as u8)) by {
        assert(s.subrange(i + p12.len(), i + p13.len())[0] == l7[0]);
    }
    lemma_parse_u64_inverts(s, i + p11.len(), q.volume);
    assert(spec_parse_lit(s, i + p12.len(), l7) == Some(i + p13.len()));
    lemma_parse_price_inverts(s, i + p13.len(), q.adjclose);
    assert(spec_parse_lit(s, i + p14.len(), l8) == Some(i + p15.len()));
    lemma_parse_bool_inverts(s, i + p15.len(), q.is_volatile);
    assert(spec_parse_lit(s, i + p16.len(), l9) == Some(i + p17.len()));
    assert(spec_parse_quote(s, i) == Some((q, i + spec_quote_bytes(q).len())));
}

/// Parsing inverts printing for a whole series, up to and including the
/// closing bracket that follows its bytes.
#[verifier::rlimit(100)]
proof fn lemma_parse_quote_seq_inverts(s: Seq<u8>, i: int, qs: Seq<DailyQuote>)
    requires
        0 <= i,
        forall|t: int| 0 <= t < qs.len() ==> (#[trigger] qs[t]).date.wf(),
        i + spec_quote_list_bytes(qs).len() + 1 <= s.len(),
        s.subrange(i, i + spec_quote_list_bytes(qs).len()) == spec_quote_list_bytes(qs),
        s[i + spec_quote_list_bytes(qs).len()] == (']' as u8),
    ensures
        spec_parse_quote_seq(s, i) == Some((qs, i + spec_quote_list_bytes(qs).len() + 1)),
    decreases qs.len(),
{
    reveal_strlit("{\"date\":\"");
    let lb = spec_quote_list_bytes(qs);
    if qs.len() == 0 {
        assert(spec_parse_quote_seq(s, i) == Some((Seq::<DailyQuote>::empty(), i + 1)));
        assert(Seq::<DailyQuote>::empty() =~= qs);
    } else {
        let q0 = qs[0];
        let qb = spec_quote_bytes(q0);
        assert(qb[0] == ascii_seq("{\"date\":\""@)[0]) by {
            let l1 = ascii_seq("{\"date\":\""@);
            assert(qb.len() >= l1.len());
            assert(qb[0] == (l1 + spec_date_bytes(q0.date))[0]);
        }
        if qs.len() == 1 {
            assert(lb == qb);
            assert(s[i] == qb[0]) by {
                assert(s.subrange(i, i + lb.len())[0] == lb[0]);
            }
            assert(s[i] != (']' as u8));
            lemma_parse_quote_inverts(s, i, q0);
            assert(s[i + qb.len()] == (']' as u8));
            assert(spec_parse_quote_seq(s, i) == Some((seq![q0], i + qb.len() + 1)));
            assert(seq![q0] =~= qs);
        } else {
            let rest = qs.drop_first();
            let rb = spec_quote_list_bytes(rest);
            assert(lb == qb + seq![(',' as u8)] + rb);
            lemma_sub_split(s, i, qb + seq![(',' as u8)], rb);
            lemma_sub_split(s, i, qb, seq![(',' as u8)]);
            assert(s[i] == qb[0]) by {
                assert(s.subrange(i, i + qb.len())[0] == qb[0]);
            }
            assert(s[i] != (']' as u8));
            lemma_parse_quote_inverts(s, i, q0);
            let j = i + qb.len();
            assert(s[j] == (',' as u8)) by {
                assert(s.subrange(j, j + 1)[0] == (',' as u8));
            }
            assert(forall|t: int| 0 <= t < rest.len() ==> (#[trigger] rest[t]).date.wf());
            assert(s[j + 1 + rb.len()] == (']' as u8));
            lemma_parse_quote_seq_inverts(s, j + 1, rest);
            assert(seq![q0] + rest =~= qs);
        }
    }
}

impl AnalysisView {
    /// Every date the view carries is a real calendar date within the
    /// span the wire format can hold.
    pub open spec fn dates_wf(self) -> bool {
        &&& self.start_date.wf()
        &&& self.end_date.wf()
        &&& self.min_close_date.wf()
        &&& self.max_close_date.wf()
        &&& forall|i: int|
            0 <= i < self.regular_quotes.len() ==> (#[trigger] self.regular_quotes[i]).date.wf()
        &&& forall|i: int|
            0 <= i < self.volatile_quotes.len() ==> (#[trigger] self.volatile_quotes[i]).date.wf()
    }
}

/// Parsing inverts printing for the report's scalar fields.
#[verifier::rlimit(100)]
proof fn lemma_parse_scalars_inverts(s: Seq<u8>, v: AnalysisView)
    requires
        v.dates_wf(),
        spec_report_head_bytes(v).len() <= s.len(),
        s.subrange(0, spec_report_head_bytes(v).len() as int) == spec_report_head_bytes(v),
    ensures
        spec_parse_scalars(s) matches Some((head, j)) && j == spec_report_head_bytes(v).len()
            && head.min_close_price == v.min_close_price && head.max_close_price
            == v.max_close_price && head.min_close_date == v.min_close_date
            && head.max_close_date == v.max_close_date && head.start_date == v.start_date
            && head.end_date == v.end_date && head.min_low_price == v.min_low_price
            && head.max_high_price == v.max_high_price,
{
    reveal(spec_parse_scalars);
    reveal_strlit("{\"min_close_price\":");
    reveal_strlit(",\"max_close_price\":");
    reveal_strlit(",\"min_close_date\":\"");
    reveal_strlit("\",\"max_close_date\":\"");
    reveal_strlit("\",\"start_date\":\"");
    reveal_strlit("\",\"end_date\":\"");
    reveal_strlit("\",\"min_low_price\":");
    reveal_strlit(",\"max_high_price\":");
    reveal_strlit(",\"regular_quotes\":[");
    let l1 = ascii_seq("{\"min_close_price\":"@);
    let l2 = ascii_seq(",\"max_close_price\":"@);
    let l3 = ascii_seq(",\"min_close_date\":\""@);
    let l4 = ascii_seq("\",\"max_close_date\":\""@);
    let l5 = ascii_seq("\",\"start_date\":\""@);
    let l6 = ascii_seq("\",\"end_date\":\""@);
    let l7 = ascii_seq("\",\"min_low_price\":"@);
    let l8 = ascii_seq(",\"max_high_price\":"@);
    let l9 = ascii_seq(",\"regular_quotes\":["@);
    let b1 = spec_price_bytes(v.min_close_price);
    let b2 = spec_price_bytes(v.max_close_price);
    let d1 = spec_date_bytes(v.min_close_date);
    let d2 = spec_date_bytes(v.max_close_date);
    let d3 = spec_date_bytes(v.start_date);
    let d4 = spec_date_bytes(v.end_date);
    let b3 = spec_price_bytes(v.min_low_price);
    let b4 = spec_price_bytes(v.max_high_price);
    let p1 = l1;
    let p2 = p1 + b1;
    let p3 = p2 + l2;
    let p4 = p3 + b2;
    let p5 = p4 + l3;
    let p6 = p5 + d1;
    let p7 = p6 + l4;
    let p8 = p7 + d2;
    let p9 = p8 + l5;
    let p10 = p9 + d3;
    let p11 = p10 + l6;
    let p12 = p11 + d4;
    let p13 = p12 + l7;
    let p14 = p13 + b3;
    let p15 = p14 + l8;
    let p16 = p15 + b4;
    let p17 = p16 + l9;
    assert(spec_report_head_bytes(v) == p17);
    lemma_sub_split(s, 0, p16, l9);
    lemma_sub_split(s, 0, p15, b4);
    lemma_sub_split(s, 0, p14, l8);
    lemma_sub_split(s, 0, p13, b3);
    lemma_sub_split(s, 0, p12, l7);
    lemma_sub_split(s, 0, p11, d4);
    lemma_sub_split(s, 0, p10, l6);
    lemma_sub_split(s, 0, p9, d3);
    lemma_sub_split(s, 0, p8, l5);
    lemma_sub_split(s, 0, p7, d2);
    lemma_sub_split(s, 0, p6, l4);
    lemma_sub_split(s, 0, p5, d1);
    lemma_sub_split(s, 0, p4, l3);
    lemma_sub_split(s, 0, p3, b2);
    lemma_sub_split(s, 0, p2, l2);
    lemma_sub_split(s, 0, p1, b1);
    assert(spec_parse_lit(s, 0, l1) == Some(p1.len() as int));
    lemma_parse_price_inverts(s, p1.len() as int, v.min_close_price);
    assert(spec_parse_lit(s, p2.len() as int, l2) == Some(p3.len() as int));
    lemma_parse_price_inverts(s, p3.len() as int, v.max_close_price);
    assert(spec_parse_lit(s, p4.len() as int, l3) == Some(p5.len() as int));
    lemma_parse_date_inverts(s, p5.len() as int, v.min_close_date);
    assert(spec_parse_lit(s, p6.len() as int, l4) == Some(p7.len() as int));
    lemma_parse_date_inverts(s, p7.len() as int, v.max_close_date);
    assert(spec_parse_lit(s, p8.len() as int, l5) == Some(p9.len() as int));
    lemma_parse_date_inverts(s, p9.len() as int, v.start_date);
    assert(spec_parse_lit(s, p10.len() as int, l6) == Some(p11.len() as int));
    lemma_parse_date_inverts(s, p11.len() as int, v.end_date);
    assert(spec_parse_lit(s, p12.len() as int, l7) == Some(p13.len() as int));
    lemma_parse_price_inverts(s, p13.len() as int, v.min_low_price);
    assert(spec_parse_lit(s, p14.len() as int, l8) == Some(p15.len() as int));
    lemma_parse_price_inverts(s, p15.len() as int, v.max_high_price);
    assert(spec_parse_lit(s, p16.len() as int, l9) == Some(p17.len() as int));
}

/// A literal printed right after a series' closing bracket: the bracket
/// stands first, and the remainder parses one byte later.
proof fn lemma_bracket_then_lit(s: Seq<u8>, i: int, rest: Seq<u8>)
    requires
        0 <= i,
        rest.len() > 0,
        i + 1 + rest.len() <= s.len(),
        s.subrange(i, i + 1 + rest.len()) == seq![(']' as u8)] + rest,
    ensures
        s[i] == (']' as u8),
        spec_parse_lit(s, i + 1, rest) == Some(i + 1 + rest.len()),
{
    let full = seq![(']' as u8)] + rest;
    assert(s[i] == (']' as u8)) by {
        assert(s.subrange(i, i + 1 + rest.len())[0] == full[0]);
    }
    assert(s.subrange(i + 1, i + 1 + rest.len()) =~= rest) by {
        assert forall|t: int| 0 <= t < rest.len() implies s.subrange(
            i + 1,
            i + 1 + rest.len(),
        )[t] == rest[t] by {
            assert(s.subrange(i, i + 1 + rest.len())[1 + t] == full[1 + t]);
            assert(s.subrange(i, i + 1 + rest.len())[1 + t] == s[i + 1 + t]);
            assert(s.subrange(i + 1, i + 1 + rest.len())[t] == s[i + 1 + t]);
        }
    }
}

/// Splits a five-part concatenation into its parts' positions.
proof fn lemma_five_way_split(s: Seq<u8>, a: Seq<u8>, b: Seq<u8>, c: Seq<u8>, d: Seq<u8>, e: Seq<u8>)
    requires
        s == a + b + c + d + e,
    ensures
        s.len() == a.len() + b.len() + c.len() + d.len() + e.len(),
        s.subrange(0, a.len() as int) == a,
        s.subrange(a.len() as int, (a.len() + b.len()) as int) == b,
        s.subrange((a.len() + b.len()) as int, (a.len() + b.len() + c.len()) as int) == c,
        s.subrange(
            (a.len() + b.len() + c.len()) as int,
            (a.len() + b.len() + c.len() + d.len()) as int,
        ) == d,
        s.subrange((a.len() + b.len() + c.len() + d.len()) as int, s.len() as int) == e,
{
    assert(s.subrange(0, s.len() as int) =~= s);
    lemma_sub_split(s, 0, a + b + c + d, e);
    lemma_sub_split(s, 0, a + b + c, d);
    lemma_sub_split(s, 0, a + b, c);
    lemma_sub_split(s, 0, a, b);
}

/// Law: the codec round-trips. Decoding the canonical wire bytes of any
/// valid report yields exactly that report, field for field, dates and
/// their formatting included.
#[verifier::rlimit(100)]
pub proof fn lemma_report_round_trip(v: AnalysisView)
    requires
        v.dates_wf(),
    ensures
        spec_parse_report(spec_report_bytes(v)) == Some(v),
{
    reveal_strlit("],\"volatile_quotes\":[");
    reveal_strlit(",\"volatile_quotes\":[");
    reveal_strlit("]}");
    reveal_strlit("}");
    let s = spec_report_bytes(v);
    let hb = spec_report_head_bytes(v);
    let r1 = spec_quote_list_bytes(v.regular_quotes);
    let r2 = spec_quote_list_bytes(v.volatile_quotes);
    let l10 = ascii_seq("],\"volatile_quotes\":["@);
    let l11 = ascii_seq("]}"@);
    let lt10 = ascii_seq(",\"volatile_quotes\":["@);
    let lt11 = ascii_seq("}"@);
    assert(s == hb + r1 + l10 + r2 + l11);
    lemma_five_way_split(s, hb, r1, l10, r2, l11);
    lemma_parse_scalars_inverts(s, v);
    assert(l10 =~= seq![(']' as u8)] + lt10);
    assert(l11 =~= seq![(']' as u8)] + lt11);
    let o1 = hb.len() as int;
    let o2 = o1 + r1.len();
    let o3 = o2 + l10.len();
    let o4 = o3 + r2.len();
    lemma_bracket_then_lit(s, o2, lt10);
    lemma_parse_quote_seq_inverts(s, o1, v.regular_quotes);
    lemma_bracket_then_lit(s, o4, lt11);
    lemma_parse_quote_seq_inverts(s, o3, v.volatile_quotes);
    assert(spec_parse_report(s) == Some(v));
}

} // verus!
