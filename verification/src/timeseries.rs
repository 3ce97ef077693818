use vstd::prelude::*;

use vstd::arithmetic::div_mod::{
    lemma_div_is_ordered, lemma_fundamental_div_mod, lemma_fundamental_div_mod_converse,
    lemma_mod_bound,
};
use vstd::arithmetic::mul::lemma_mul_inequality;

use crate::utils::EkError;

verus! {

/// The sampling frequency of a time-series request.
#[derive(Debug)]
pub enum Interval {
    Minute,
    Hour,
    Daily,
    Weekly,
    Monthly,
    Quarterly,
    Yearly,
}

/// The frequency code the service expects on the wire.
pub open spec fn interval_code(frq: Interval) -> Seq<char> {
    match frq {
        Interval::Minute => "minute"@,
        Interval::Hour => "hour"@,
        Interval::Daily => "daily"@,
        Interval::Weekly => "weekly"@,
        Interval::Monthly => "monthly"@,
        Interval::Quarterly => "quarterly"@,
        Interval::Yearly => "yearly"@,
    }
}

/// Which frequency a code names; nothing for a code outside the seven
/// recognized ones.
pub open spec fn spec_interval_of(v: Seq<char>) -> Option<Interval> {
    if v == "minute"@ {
        Some(Interval::Minute)
    } else if v == "hour"@ {
        Some(Interval::Hour)
    } else if v == "daily"@ {
        Some(Interval::Daily)
    } else if v == "weekly"@ {
        Some(Interval::Weekly)
    } else if v == "monthly"@ {
        Some(Interval::Monthly)
    } else if v == "quarterly"@ {
        Some(Interval::Quarterly)
    } else if v == "yearly"@ {
        Some(Interval::Yearly)
    } else {
        None
    }
}

impl Interval {
    /// The wire code of this frequency.
    pub fn as_str(&self) -> (r: &'static str)
        ensures
            r@ == interval_code(*self),
    {
        match self {
            Interval::Minute => "minute",
            Interval::Hour => "hour",
            Interval::Daily => "daily",
            Interval::Weekly => "weekly",
            Interval::Monthly => "monthly",
            Interval::Quarterly => "quarterly",
            Interval::Yearly => "yearly",
        }
    }

    /// Reads a frequency code; an unrecognized code is a configuration
    /// error rather than a silent default.
    pub fn new(v: &str) -> (r: Result<Interval, EkError>)
        ensures
            match spec_interval_of(v@) {
                Some(f) => r matches Ok(f2) && f2 == f,
                None => r matches Err(e) && (e matches EkError::Error(m) && m@
                    == "Unrecognized frequency code: "@ + v@),
            },
    {
        if crate::strutil::str_eq(v, "minute") {
            Ok(Interval::Minute)
        } else if crate::strutil::str_eq(v, "hour") {
            Ok(Interval::Hour)
        } else if crate::strutil::str_eq(v, "daily") {
            Ok(Interval::Daily)
        } else if crate::strutil::str_eq(v, "weekly") {
            Ok(Interval::Weekly)
        } else if crate::strutil::str_eq(v, "monthly") {
            Ok(Interval::Monthly)
        } else if crate::strutil::str_eq(v, "quarterly") {
            Ok(Interval::Quarterly)
        } else if crate::strutil::str_eq(v, "yearly") {
            Ok(Interval::Yearly)
        } else {
            let mut m = String::from_str("Unrecognized frequency code: ");
            m.append(v);
            Err(EkError::Error(m))
        }
    }
}

/// Expected row count per identifier for a span of `span_secs` seconds:
/// about 252 trading days per 365 calendar days at daily frequency, one
/// row per calendar week, twelve rows per 365 days at monthly frequency
/// and so on down to one at yearly frequency, and one row per two
/// minutes or hours at the sub-daily frequencies (an allowance for
/// non-trading periods). Fractions round up; an empty or backwards span
/// yields zero.
pub open spec fn spec_rows_estimate(frq: Interval, span_secs: int) -> int {
    if span_secs <= 0 {
        0
    } else {
        let days = span_secs / 86400;
        match frq {
            Interval::Minute => (span_secs / 60 + 1) / 2,
            Interval::Hour => (span_secs / 3600 + 1) / 2,
            Interval::Daily => (252 * days + 364) / 365,
            Interval::Weekly => days / 7,
            Interval::Monthly => (12 * days + 364) / 365,
            Interval::Quarterly => (4 * days + 364) / 365,
            Interval::Yearly => (days + 364) / 365,
        }
    }
}

/// Expected rows per identifier over a span of `span_secs` seconds.
pub fn rows_estimate(frq: &Interval, span_secs: i64) -> (r: u64)
    requires
        span_secs <= 2 * crate::dates::MAX_RENDER_SECS,
    ensures
        r == spec_rows_estimate(*frq, span_secs as int),
        r <= 150_000_000_000,
{
    if span_secs <= 0 {
        return 0;
    }
    let days = span_secs / 86400;
    proof {
        let sp = span_secs as int;
        let cap = 2 * crate::dates::MAX_RENDER_SECS as int;
        lemma_div_is_ordered(sp, cap, 60);
        lemma_div_is_ordered(sp, cap, 3600);
        lemma_div_is_ordered(sp, cap, 86400);
        lemma_div_is_ordered(sp / 60 + 1, cap / 60 + 1, 2);
        lemma_div_is_ordered(sp / 3600 + 1, cap / 3600 + 1, 2);
        lemma_div_is_ordered(252 * (sp / 86400) + 364, 252 * (cap / 86400) + 364, 365);
        lemma_div_is_ordered(sp / 86400, cap / 86400, 7);
        lemma_div_is_ordered(12 * (sp / 86400) + 364, 12 * (cap / 86400) + 364, 365);
        lemma_div_is_ordered(4 * (sp / 86400) + 364, 4 * (cap / 86400) + 364, 365);
        lemma_div_is_ordered(sp / 86400 + 364, cap / 86400 + 364, 365);
    }
    let r = match frq {
        Interval::Minute => (span_secs / 60 + 1) / 2,
        Interval::Hour => (span_secs / 3600 + 1) / 2,
        Interval::Daily => (252 * days + 364) / 365,
        Interval::Weekly => days / 7,
        Interval::Monthly => (12 * days + 364) / 365,
        Interval::Quarterly => (4 * days + 364) / 365,
        Interval::Yearly => (days + 364) / 365,
    };
    r as u64
}

/// For a fixed span, the estimated rows per identifier never grow as
/// the frequency coarsens from daily through weekly, monthly and
/// quarterly to yearly. (Below a week — other than for an empty span —
/// the weekly estimate of a zero whole weeks undercuts the monthly
/// one, so such spans are excluded.)
pub proof fn lemma_rows_estimate_monotonic(span_secs: int)
    requires
        span_secs == 0 || span_secs >= 7 * 86400,
    ensures
        spec_rows_estimate(Interval::Daily, span_secs) >= spec_rows_estimate(
            Interval::Weekly,
            span_secs,
        ),
        spec_rows_estimate(Interval::Weekly, span_secs) >= spec_rows_estimate(
            Interval::Monthly,
            span_secs,
        ),
        spec_rows_estimate(Interval::Monthly, span_secs) >= spec_rows_estimate(
            Interval::Quarterly,
            span_secs,
        ),
        spec_rows_estimate(Interval::Quarterly, span_secs) >= spec_rows_estimate(
            Interval::Yearly,
            span_secs,
        ),
{
    if span_secs == 0 {
        return ;
    }
    let d = span_secs / 86400;
    lemma_div_is_ordered(7 * 86400int, span_secs, 86400);
    lemma_fundamental_div_mod_converse(7 * 86400int, 86400, 7, 0);
    assert(d >= 7);
    let w = d / 7;
    lemma_fundamental_div_mod(d, 7);
    lemma_mod_bound(d, 7);
    assert(7 * w <= d <= 7 * w + 6);
    assert(w >= 1);
    // daily >= weekly: 365 * w <= 252 * d + 364.
    lemma_fundamental_div_mod_converse(365 * w, 365, w, 0);
    assert(365 * w <= 252 * d + 364);
    lemma_div_is_ordered(365 * w, 252 * d + 364, 365);
    // weekly >= monthly: 12 * d + 364 <= 365 * w + 364.
    lemma_fundamental_div_mod_converse(365 * w + 364, 365, w, 364);
    assert(12 * d + 364 <= 365 * w + 364);
    lemma_div_is_ordered(12 * d + 364, 365 * w + 364, 365);
    // monthly >= quarterly and quarterly >= yearly.
    lemma_div_is_ordered(4 * d + 364, 12 * d + 364, 365);
    lemma_div_is_ordered(d + 364, 4 * d + 364, 365);
}

/// Length of each sub-interval when a span is cut `g` ways (the last
/// sub-interval also absorbs the remainder).
pub open spec fn spec_interval_dur(g: int, s: int, e: int) -> int {
    (e - s) / g
}

/// Where sub-interval `i` of `g` begins.
pub open spec fn spec_interval_start(g: int, s: int, e: int, i: int) -> int {
    s + i * spec_interval_dur(g, s, e)
}

/// Where sub-interval `i` of `g` ends; the last one ends exactly at `e`.
pub open spec fn spec_interval_end(g: int, s: int, e: int, i: int) -> int {
    if i == g - 1 {
        e
    } else {
        s + (i + 1) * spec_interval_dur(g, s, e)
    }
}

/// Cuts the span from `s_date` to `e_date` (in seconds) into `groups`
/// contiguous sub-intervals without gaps: each begins where the one
/// before it ends, the first begins at `s_date`, and the last ends at
/// `e_date`, absorbing any remainder of the division.
pub fn create_interval(groups: u64, s_date: i64, e_date: i64) -> (r: Vec<(i64, i64)>)
    requires
        1 <= groups <= 0x7fff_ffff_ffff_ffff,
        groups == 1 || s_date <= e_date,
        -crate::dates::MAX_RENDER_SECS <= s_date <= crate::dates::MAX_RENDER_SECS,
        -crate::dates::MAX_RENDER_SECS <= e_date <= crate::dates::MAX_RENDER_SECS,
    ensures
        r@.len() == groups,
        forall|i: int|
            0 <= i < groups ==> (#[trigger] r@[i]).0 == spec_interval_start(
                groups as int,
                s_date as int,
                e_date as int,
                i,
            ),
        forall|i: int|
            0 <= i < groups ==> (#[trigger] r@[i]).1 == spec_interval_end(
                groups as int,
                s_date as int,
                e_date as int,
                i,
            ),
        forall|i: int| 0 <= i < groups - 1 ==> (#[trigger] r@[i]).1 == r@[i + 1].0,
        forall|i: int|
            0 <= i < groups ==> -crate::dates::MAX_RENDER_SECS <= (#[trigger] r@[i]).0
                <= crate::dates::MAX_RENDER_SECS && -crate::dates::MAX_RENDER_SECS <= r@[i].1
                <= crate::dates::MAX_RENDER_SECS,
        s_date <= e_date ==> forall|i: int|
            0 <= i < groups ==> (#[trigger] r@[i]).0 <= r@[i].1,
{
    let g = groups;
    let dur: i64 = (e_date - s_date) / (g as i64);
    proof {
        let gi = g as int;
        let span = e_date as int - s_date as int;
        if s_date <= e_date {
            lemma_fundamental_div_mod(span, gi);
            lemma_mod_bound(span, gi);
            lemma_fundamental_div_mod_converse(0int, gi, 0, 0);
            lemma_div_is_ordered(0int, span, gi);
            assert(dur as int == span / gi);
            assert(dur >= 0);
            assert(gi * (dur as int) <= span);
        }
    }
    let mut r: Vec<(i64, i64)> = Vec::new();
    let mut i: u64 = 0;
    let mut cur: i64 = s_date;
    while i < g
        invariant
            g == groups,
            1 <= g <= 0x7fff_ffff_ffff_ffff,
            g == 1 || s_date <= e_date,
            -crate::dates::MAX_RENDER_SECS <= s_date <= crate::dates::MAX_RENDER_SECS,
            -crate::dates::MAX_RENDER_SECS <= e_date <= crate::dates::MAX_RENDER_SECS,
            dur as int == spec_interval_dur(g as int, s_date as int, e_date as int),
            s_date <= e_date ==> dur >= 0 && g as int * (dur as int) <= e_date as int
                - s_date as int,
            i <= g,
            r@.len() == i,
            i < g ==> cur as int == s_date as int + i as int * (dur as int),
            s_date <= e_date && i < g ==> s_date <= cur && cur as int + dur as int
                <= e_date as int,
            forall|j: int|
                0 <= j < i ==> (#[trigger] r@[j]).0 == spec_interval_start(
                    g as int,
                    s_date as int,
                    e_date as int,
                    j,
                ),
            forall|j: int|
                0 <= j < i ==> (#[trigger] r@[j]).1 == spec_interval_end(
                    g as int,
                    s_date as int,
                    e_date as int,
                    j,
                ),
            forall|j: int|
                0 <= j < i ==> -crate::dates::MAX_RENDER_SECS <= (#[trigger] r@[j]).0
                    <= crate::dates::MAX_RENDER_SECS && -crate::dates::MAX_RENDER_SECS <= r@[j].1
                    <= crate::dates::MAX_RENDER_SECS,
            s_date <= e_date ==> forall|j: int| 0 <= j < i ==> (#[trigger] r@[j]).0 <= r@[j].1,
        decreases g - i,
    {
        let next: i64 = if i == g - 1 {
            e_date
        } else {
            proof {
                let gi = g as int;
                let di = dur as int;
                let ii = i as int;
                assert((ii + 1) * di == ii * di + di) by (nonlinear_arith);
                if s_date <= e_date {
                    lemma_mul_inequality(ii + 1, gi, di);
                }
            }
            cur + dur
        };
        r.push((cur, next));
        proof {
            if s_date <= e_date {
                assert(s_date as int <= cur as int <= e_date as int);
                assert(s_date as int <= next as int <= e_date as int);
            } else {
                assert(g == 1 && i == 0);
                assert(cur == s_date && next == e_date);
            }
            let gi = g as int;
            let di = dur as int;
            let ii = i as int;
            if ii < gi - 1 {
                assert((ii + 1) * di == ii * di + di) by (nonlinear_arith);
                if s_date <= e_date {
                    lemma_mul_inequality(ii + 2, gi, di);
                    assert((ii + 2) * di == (ii + 1) * di + di) by (nonlinear_arith);
                }
            }
        }
        cur = next;
        i = i + 1;
    }
    r
}

/// The wire text of one time-series sub-request: the identifier group,
/// the field names, the frequency code and the sub-interval bounds.
pub open spec fn ts_payload_text(
    rics: Seq<Seq<char>>,
    fields: Seq<Seq<char>>,
    code: Seq<char>,
    sd: int,
    ed: int,
) -> Seq<char> {
    "{\"rics\":"@ + crate::jsontext::string_array_text(rics) + ",\"fields\":"@
        + crate::jsontext::string_array_text(fields) + ",\"interval\":\""@ + code
        + "\",\"startdate\":\""@ + crate::dates::iso_text_of(sd) + "\",\"enddate\":\""@
        + crate::dates::iso_text_of(ed) + "\"}"@
}

/// Renders one time-series sub-request payload.
pub fn assemble_payload(
    rics: &Vec<String>,
    fields: &Vec<String>,
    frq: &str,
    s_date: i64,
    e_date: i64,
) -> (r: String)
    requires
        -crate::dates::MAX_RENDER_SECS <= s_date <= crate::dates::MAX_RENDER_SECS,
        -crate::dates::MAX_RENDER_SECS <= e_date <= crate::dates::MAX_RENDER_SECS,
    ensures
        r@ == ts_payload_text(
            crate::jsontext::strs_view(rics@),
            crate::jsontext::strs_view(fields@),
            frq@,
            s_date as int,
            e_date as int,
        ),
{
    let mut out = String::from_str("{\"rics\":");
    let a = crate::jsontext::json_string_array(rics);
    out.append(a.as_str());
    out.append(",\"fields\":");
    let b = crate::jsontext::json_string_array(fields);
    out.append(b.as_str());
    out.append(",\"interval\":\"");
    out.append(frq);
    out.append("\",\"startdate\":\"");
    let sd = crate::dates::iso_datetime_text(s_date);
    out.append(sd.as_str());
    out.append("\",\"enddate\":\"");
    let ed = crate::dates::iso_datetime_text(e_date);
    out.append(ed.as_str());
    out.append("\"}");
    out
}

/// How many identifiers one sub-request may carry: at most 300.
pub open spec fn spec_ric_group_size(n: int) -> int {
    if n > 300 {
        300
    } else {
        n
    }
}

/// How many time sub-intervals the span must be cut into so that one
/// identifier group's expected rows fit under 3000 per response; at
/// least one.
pub open spec fn spec_time_groups(frq: Interval, span_secs: int, rgs: int) -> int {
    let t = (spec_rows_estimate(frq, span_secs) * rgs + 2999) / 3000;
    if t == 0 {
        1
    } else {
        t
    }
}

/// Plans the physical sub-requests for a time-series query: identifiers
/// are cut into contiguous groups of at most 300, the span into enough
/// sub-intervals that each group's expected rows fit one response, and
/// one payload is rendered per group and sub-interval, group-major.
/// Together the payloads cover each identifier exactly once and the
/// whole span exactly once, with no overlaps and no gaps.
#[verifier::loop_isolation(false)]
pub fn groups(
    rics: Vec<String>,
    fields: Vec<String>,
    s_date: i64,
    e_date: i64,
    frq: Interval,
) -> (r: Vec<String>)
    requires
        -crate::dates::MAX_RENDER_SECS <= s_date <= crate::dates::MAX_RENDER_SECS,
        -crate::dates::MAX_RENDER_SECS <= e_date <= crate::dates::MAX_RENDER_SECS,
    ensures
        ({
            let rv = crate::jsontext::strs_view(rics@);
            let rgs = spec_ric_group_size(rv.len() as int);
            let gs = crate::utils::chunks_of(rv, rgs);
            let tg = spec_time_groups(frq, e_date as int - s_date as int, rgs);
            &&& rics@.len() == 0 ==> r@.len() == 0
            &&& rics@.len() > 0 ==> {
                &&& r@.len() == gs.len() * tg
                &&& forall|x: int|
                    0 <= x < r@.len() ==> (#[trigger] r@[x])@ == ts_payload_text(
                        gs[x / tg],
                        crate::jsontext::strs_view(fields@),
                        interval_code(frq),
                        spec_interval_start(tg, s_date as int, e_date as int, x % tg),
                        spec_interval_end(tg, s_date as int, e_date as int, x % tg),
                    )
            }
        }),
{
    let n = rics.len();
    if n == 0 {
        return Vec::new();
    }
    let rgs: usize = if n > 300 {
        300
    } else {
        n
    };
    let span = e_date - s_date;
    let rows = rows_estimate(&frq, span);
    proof {
        assert(rows as int * (rgs as int) <= 45_000_000_000_000int) by (nonlinear_arith)
            requires
                rows as int <= 150_000_000_000int,
                0 <= rgs as int <= 300int,
        ;
    }
    let tg0 = (rows * (rgs as u64) + 2999) / 3000;
    let tg: u64 = if tg0 == 0 {
        1
    } else {
        tg0
    };
    let ghost rv = crate::jsontext::strs_view(rics@);
    proof {
        assert(rv.len() == rics@.len());
        assert(rgs as int == spec_ric_group_size(rv.len() as int));
        assert(tg as int == spec_time_groups(frq, span as int, rgs as int));
        if s_date > e_date {
            assert(spec_rows_estimate(frq, span as int) == 0);
            assert(tg == 1);
        }
    }
    let gvec = crate::utils::chunk_identifiers(&rics, rgs);
    let ivs = create_interval(tg, s_date, e_date);
    let code = frq.as_str();
    let ghost gs = crate::utils::chunks_of(rv, rgs as int);
    let mut payloads: Vec<String> = Vec::new();
    let na = gvec.len();
    let nb = ivs.len();
    proof {
        assert(na as int == gs.len());
    }
    let mut a: usize = 0;
    while a < na
        invariant
            a <= na,
            payloads@.len() == a as int * (tg as int),
            forall|x: int|
                0 <= x < payloads@.len() ==> (#[trigger] payloads@[x])@ == ts_payload_text(
                    gs[x / (tg as int)],
                    crate::jsontext::strs_view(fields@),
                    interval_code(frq),
                    spec_interval_start(tg as int, s_date as int, e_date as int, x % (tg as int)),
                    spec_interval_end(tg as int, s_date as int, e_date as int, x % (tg as int)),
                ),
        decreases na - a,
    {
        let mut b: usize = 0;
        while b < nb
            invariant
                a < na,
                b <= nb,
                payloads@.len() == a as int * (tg as int) + b as int,
                forall|x: int|
                    0 <= x < payloads@.len() ==> (#[trigger] payloads@[x])@ == ts_payload_text(
                        gs[x / (tg as int)],
                        crate::jsontext::strs_view(fields@),
                        interval_code(frq),
                        spec_interval_start(
                            tg as int,
                            s_date as int,
                            e_date as int,
                            x % (tg as int),
                        ),
                        spec_interval_end(tg as int, s_date as int, e_date as int, x % (tg as int)),
                    ),
            decreases nb - b,
        {
            let p = assemble_payload(&gvec[a], &fields, code, ivs[b].0, ivs[b].1);
            payloads.push(p);
            proof {
                let k0 = a as int * (tg as int) + b as int;
                lemma_fundamental_div_mod_converse(k0, tg as int, a as int, b as int);
                assert(crate::utils::groups_view(gvec@)[a as int] == crate::jsontext::strs_view(
                    gvec@[a as int]@,
                ));
            }
            b = b + 1;
        }
        a = a + 1;
        proof {
            assert((a as int) * (tg as int) == (a as int - 1) * (tg as int) + tg as int)
                by (nonlinear_arith);
        }
    }
    payloads
}

/// One per-identifier row group of a time-series response: the raw
/// JSON texts of its status code and identifier, its field names, and
/// its rows of raw cell texts.
pub struct TsRicGroup {
    pub status: String,
    pub ric: String,
    pub field_names: Vec<String>,
    pub rows: Vec<Vec<String>>,
}

/// One decoded time-series response body: its row groups, or a body
/// whose data could not be read as a list of groups.
pub enum TsBody {
    Data(Vec<TsRicGroup>),
    Malformed,
}

/// Whether a row group reports the normal status.
pub open spec fn ts_normal(g: TsRicGroup) -> bool {
    g.status@ == "\"Normal\""@
}

/// The first row group reporting normal status, scanning in order.
pub open spec fn ts_first_normal(gs: Seq<TsRicGroup>) -> Option<TsRicGroup>
    decreases gs.len(),
{
    if gs.len() == 0 {
        None
    } else if ts_normal(gs[0]) {
        Some(gs[0])
    } else {
        ts_first_normal(gs.drop_first())
    }
}

/// The column names one row group implies: its field names stripped of
/// quotes, then the identifier column.
pub open spec fn ts_header_names(g: TsRicGroup) -> Seq<Seq<char>> {
    crate::jsontext::strs_view(g.field_names@).map_values(
        |n: Seq<char>| crate::utils::strip_quotes(n),
    ) + seq!["RIC"@]
}

/// Every row of every normal group, each paired with its group's
/// identifier, in order; rows of non-normal groups are excluded.
pub open spec fn ts_row_pairs(gs: Seq<TsRicGroup>) -> Seq<(Seq<char>, Seq<Seq<char>>)> {
    gs.map_values(
        |g: TsRicGroup|
            if ts_normal(g) {
                crate::datagrid::rows_view(g.rows@).map_values(|row: Seq<Seq<char>>| (g.ric@, row))
            } else {
                Seq::<(Seq<char>, Seq<Seq<char>>)>::empty()
            },
    ).flatten()
}

/// The cell under column `i` for one (identifier, row) pair: the
/// identifier for the identifier column, else the row's cell at that
/// position, each quote-stripped.
pub open spec fn ts_cell(names: Seq<Seq<char>>, p: (Seq<char>, Seq<Seq<char>>), i: int) -> Option<
    Seq<char>,
> {
    if names[i] == "RIC"@ {
        Some(crate::utils::strip_quotes(p.0))
    } else {
        Some(crate::utils::strip_quotes(crate::datagrid::cell_text(p.1, i)))
    }
}

/// Reads the column names of one response: the field names of its
/// first normal row group plus the identifier column, if any group is
/// normal.
pub fn fetch_headers(json_like: &TsRicGroup) -> (r: Option<Vec<String>>)
    ensures
        match r {
            Some(v) => ts_normal(*json_like) && crate::jsontext::strs_view(v@) == ts_header_names(
                *json_like,
            ),
            None => !ts_normal(*json_like),
        },
{
    if !crate::strutil::str_eq(json_like.status.as_str(), "\"Normal\"") {
        return None;
    }
    let n = json_like.field_names.len();
    let mut names: Vec<String> = Vec::new();
    let mut i: usize = 0;
    while i < n
        invariant
            n == json_like.field_names@.len(),
            i <= n,
            crate::jsontext::strs_view(names@) =~= crate::jsontext::strs_view(
                json_like.field_names@.subrange(0, i as int),
            ).map_values(|nm: Seq<char>| crate::utils::strip_quotes(nm)),
        decreases n - i,
    {
        let ghost pre = names@;
        names.push(crate::utils::clean_string(json_like.field_names[i].clone()));
        proof {
            assert(crate::jsontext::strs_view(names@) =~= crate::jsontext::strs_view(pre).push(
                crate::utils::strip_quotes(json_like.field_names@[i as int]@),
            ));
            assert(json_like.field_names@.subrange(0, i + 1) =~= json_like.field_names@.subrange(
                0,
                i as int,
            ).push(json_like.field_names@[i as int]));
        }
        i = i + 1;
    }
    names.push(String::from_str("RIC"));
    proof {
        assert(json_like.field_names@.subrange(0, n as int) == json_like.field_names@);
        assert(crate::jsontext::strs_view(names@) =~= ts_header_names(*json_like));
    }
    Some(names)
}

/// The first normal row group's headers, scanning the groups in order.
fn ts_first_headers(gs: &Vec<TsRicGroup>) -> (r: Option<Vec<String>>)
    ensures
        match ts_first_normal(gs@) {
            None => r is None,
            Some(g0) => r matches Some(v) && crate::jsontext::strs_view(v@) == ts_header_names(g0),
        },
{
    let n = gs.len();
    let mut i: usize = 0;
    proof {
        assert(gs@.subrange(0, n as int) =~= gs@);
    }
    while i < n
        invariant
            n == gs@.len(),
            i <= n,
            ts_first_normal(gs@) == ts_first_normal(gs@.subrange(i as int, n as int)),
        decreases n - i,
    {
        proof {
            assert(gs@.subrange(i as int, n as int).drop_first() =~= gs@.subrange(i + 1, n as int));
            assert(gs@.subrange(i as int, n as int)[0] == gs@[i as int]);
        }
        match fetch_headers(&gs[i]) {
            None => {
                i = i + 1;
            },
            Some(h) => {
                return Some(h);
            },
        }
    }
    proof {
        assert(gs@.subrange(n as int, n as int).len() == 0);
    }
    None
}

/// The abstract values of a list of (identifier, row) pairs.
pub open spec fn ric_rows_view(s: Seq<(String, Vec<String>)>) -> Seq<(Seq<char>, Seq<Seq<char>>)> {
    s.map_values(|p: (String, Vec<String>)| (p.0@, crate::jsontext::strs_view(p.1@)))
}

/// Gathers every row of every normal group, paired with its group's
/// identifier, in order.
#[verifier::loop_isolation(false)]
fn collect_ric_rows(gs: &Vec<TsRicGroup>) -> (out: Vec<(String, Vec<String>)>)
    ensures
        ric_rows_view(out@) == ts_row_pairs(gs@),
{
    let ghost f = |g: TsRicGroup|
        if ts_normal(g) {
            crate::datagrid::rows_view(g.rows@).map_values(|row: Seq<Seq<char>>| (g.ric@, row))
        } else {
            Seq::<(Seq<char>, Seq<Seq<char>>)>::empty()
        };
    let n = gs.len();
    let mut out: Vec<(String, Vec<String>)> = Vec::new();
    let mut a: usize = 0;
    proof {
        assert(gs@.subrange(0, 0).map_values(f).flatten() =~= Seq::<
            (Seq<char>, Seq<Seq<char>>),
        >::empty());
        assert(ric_rows_view(out@) =~= Seq::<(Seq<char>, Seq<Seq<char>>)>::empty());
    }
    while a < n
        invariant
            n == gs@.len(),
            a <= n,
            ric_rows_view(out@) == gs@.subrange(0, a as int).map_values(f).flatten(),
        decreases n - a,
    {
        let g = &gs[a];
        let normal = crate::strutil::str_eq(g.status.as_str(), "\"Normal\"");
        let ghost base = ric_rows_view(out@);
        if normal {
            let m = g.rows.len();
            let mut b: usize = 0;
            while b < m
                invariant
                    n == gs@.len(),
                    a < n,
                    m == gs@[a as int].rows@.len(),
                    b <= m,
                    g == gs@[a as int],
                    ts_normal(gs@[a as int]),
                    base == gs@.subrange(0, a as int).map_values(f).flatten(),
                    ric_rows_view(out@) =~= base + crate::datagrid::rows_view(
                        gs@[a as int].rows@.subrange(0, b as int),
                    ).map_values(|row: Seq<Seq<char>>| (gs@[a as int].ric@, row)),
                decreases m - b,
            {
                let ghost pre = out@;
                out.push((g.ric.clone(), crate::datagrid::clone_strs(&g.rows[b])));
                proof {
                    assert(ric_rows_view(out@) =~= ric_rows_view(pre).push(
                        (gs@[a as int].ric@, crate::jsontext::strs_view(
                            gs@[a as int].rows@[b as int]@,
                        )),
                    ));
                    assert(gs@[a as int].rows@.subrange(0, b + 1) =~= gs@[a as int].rows@.subrange(
                        0,
                        b as int,
                    ).push(gs@[a as int].rows@[b as int]));
                    assert(crate::datagrid::rows_view(
                        gs@[a as int].rows@.subrange(0, b + 1),
                    ).map_values(|row: Seq<Seq<char>>| (gs@[a as int].ric@, row)) =~= crate::datagrid::rows_view(
                        gs@[a as int].rows@.subrange(0, b as int),
                    ).map_values(|row: Seq<Seq<char>>| (gs@[a as int].ric@, row)).push(
                        (gs@[a as int].ric@, crate::jsontext::strs_view(
                            gs@[a as int].rows@[b as int]@,
                        )),
                    ));
                }
                b = b + 1;
            }
            proof {
                assert(gs@[a as int].rows@.subrange(0, m as int) == gs@[a as int].rows@);
            }
        }
        proof {
            let m0 = gs@.subrange(0, a as int).map_values(f);
            let m1 = gs@.subrange(0, a + 1).map_values(f);
            assert(m1.drop_last() =~= m0);
            assert(m1.last() == f(gs@[a as int]));
            m0.lemma_flatten_and_flatten_alt_are_equivalent();
            m1.lemma_flatten_and_flatten_alt_are_equivalent();
            assert(m1.flatten_alt() == m1.drop_last().flatten_alt() + m1.last());
            if normal {
                assert(f(gs@[a as int]) =~= crate::datagrid::rows_view(
                    gs@[a as int].rows@,
                ).map_values(|row: Seq<Seq<char>>| (gs@[a as int].ric@, row)));
            } else {
                assert(f(gs@[a as int]) =~= Seq::<(Seq<char>, Seq<Seq<char>>)>::empty());
                assert(ric_rows_view(out@) =~= base + f(gs@[a as int]));
            }
            assert(ric_rows_view(out@) =~= m1.flatten());
        }
        a = a + 1;
    }
    proof {
        assert(gs@.subrange(0, n as int) == gs@);
    }
    out
}

/// Builds one response's table: the first normal row group names the
/// columns (its fields plus the identifier column); every normal
/// group's rows follow in order, the identifier column carrying each
/// row's group identifier; non-normal groups contribute nothing. A
/// response with no normal group yields no table; a malformed body or
/// a duplicated column name is an error.
pub fn to_dataframe(json_like: TsBody) -> (r: Result<Option<crate::table::Table>, EkError>)
    ensures
        ({
            match json_like {
                TsBody::Malformed => r matches Err(e) && (e matches EkError::Error(m) && m@
                    == "Could not turn tsData into array"@),
                TsBody::Data(gs) => match ts_first_normal(gs@) {
                    None => r matches Ok(o) && o is None,
                    Some(g0) => {
                        let names = ts_header_names(g0);
                        if crate::datagrid::unique_names(names) {
                            &&& r matches Ok(o)
                            &&& r matches Ok(o) ==> o matches Some(t) && {
                                &&& t.wf()
                                &&& t.names() == names
                                &&& t.ncols() == names.len()
                                &&& t.nrows() == ts_row_pairs(gs@).len()
                                &&& forall|i: int|
                                    0 <= i < names.len() ==> #[trigger] t.col(i) == ts_row_pairs(
                                        gs@,
                                    ).map_values(|p: (Seq<char>, Seq<Seq<char>>)| ts_cell(names, p, i))
                            }
                        } else {
                            r matches Err(e) && (e matches EkError::NoDataFrame(m) && m@
                                == "Could not parse as Polars df"@)
                        }
                    },
                },
            }
        }),
{
    let gs = match json_like {
        TsBody::Malformed => {
            return Err(EkError::Error(String::from_str("Could not turn tsData into array")));
        },
        TsBody::Data(gs) => gs,
    };
    let headers = match ts_first_headers(&gs) {
        None => {
            return Ok(None);
        },
        Some(h) => h,
    };
    if !crate::datagrid::names_unique(&headers) {
        return Err(EkError::NoDataFrame(String::from_str("Could not parse as Polars df")));
    }
    let pairs = collect_ric_rows(&gs);
    let ncols = headers.len();
    let nrows = pairs.len();
    let ghost names = crate::jsontext::strs_view(headers@);
    let mut cols: Vec<crate::table::Column> = Vec::new();
    let mut j: usize = 0;
    while j < ncols
        invariant
            ncols == headers@.len(),
            nrows == pairs@.len(),
            names == crate::jsontext::strs_view(headers@),
            ric_rows_view(pairs@) == ts_row_pairs(gs@),
            j <= ncols,
            cols@.len() == j,
            forall|k: int| 0 <= k < j ==> (#[trigger] cols@[k].name@) == headers@[k]@,
            forall|k: int|
                0 <= k < j ==> (#[trigger] cols@[k].vals()) == ts_row_pairs(gs@).map_values(
                    |p: (Seq<char>, Seq<Seq<char>>)| ts_cell(names, p, k),
                ),
            forall|k: int| 0 <= k < j ==> (#[trigger] cols@[k].values@.len()) == nrows,
        decreases ncols - j,
    {
        let is_ric = crate::strutil::str_eq(headers[j].as_str(), "RIC");
        let mut values: Vec<Option<String>> = Vec::new();
        let mut b: usize = 0;
        while b < nrows
            invariant
                ncols == headers@.len(),
                nrows == pairs@.len(),
                names == crate::jsontext::strs_view(headers@),
                ric_rows_view(pairs@) == ts_row_pairs(gs@),
                j < ncols,
                is_ric == (names[j as int] == "RIC"@),
                b <= nrows,
                values@.len() == b,
                forall|x: int|
                    0 <= x < b ==> crate::table::val_view(#[trigger] values@[x]) == ts_cell(
                        names,
                        ric_rows_view(pairs@)[x],
                        j as int,
                    ),
            decreases nrows - b,
        {
            let cell = if is_ric {
                crate::utils::clean_string(pairs[b].0.clone())
            } else {
                let row = &pairs[b].1;
                let c = if j < row.len() {
                    row[j].clone()
                } else {
                    String::from_str("null")
                };
                proof {
                    assert(c@ == crate::datagrid::cell_text(
                        ric_rows_view(pairs@)[b as int].1,
                        j as int,
                    ));
                }
                crate::utils::clean_string(c)
            };
            values.push(Some(cell));
            b = b + 1;
        }
        cols.push(
            crate::table::Column { name: headers[j].clone(), values },
        );
        proof {
            assert(cols@.last().vals() =~= ts_row_pairs(gs@).map_values(
                |p: (Seq<char>, Seq<Seq<char>>)| ts_cell(names, p, j as int),
            ));
        }
        j = j + 1;
    }
    let t = crate::table::Table { columns: cols };
    proof {
        assert(t.names() =~= names);
        assert forall|x: int, y: int| 0 <= x < y < t.ncols() implies t.names()[x]
            != t.names()[y] by {
            assert(names[x] != names[y]);
        }
        assert(ncols > 0);
        assert(t.wf());
        assert forall|k: int| 0 <= k < t.ncols() implies #[trigger] t.col(k) == ts_row_pairs(
            gs@,
        ).map_values(|p: (Seq<char>, Seq<Seq<char>>)| ts_cell(names, p, k)) by {
            assert(cols@[k].vals() == ts_row_pairs(gs@).map_values(
                |p: (Seq<char>, Seq<Seq<char>>)| ts_cell(names, p, k),
            ));
        }
    }
    Ok(Some(t))
}


/// The time-series data family, dispatched through a session.
pub struct TimeSeries {
    pub connection: crate::connection::Connection,
}

impl TimeSeries {
    /// A time-series dispatcher over a session.
    pub fn new(c: crate::connection::Connection) -> (r: Self)
        ensures
            r.connection == c,
    {
        TimeSeries { connection: c }
    }
}

/// Whether decoding this body's table must fail: a malformed body, or
/// a first normal group whose column names collide.
pub open spec fn ts_body_bad(b: TsBody) -> bool {
    match b {
        TsBody::Malformed => true,
        TsBody::Data(gs) => match ts_first_normal(gs@) {
            None => false,
            Some(g0) => !crate::datagrid::unique_names(ts_header_names(g0)),
        },
    }
}

/// The first body whose decoding must fail, scanning in order.
pub open spec fn ts_scan_err(bodies: Seq<TsBody>) -> Option<TsBody>
    decreases bodies.len(),
{
    if bodies.len() == 0 {
        None
    } else if ts_body_bad(bodies[0]) {
        Some(bodies[0])
    } else {
        ts_scan_err(bodies.drop_first())
    }
}

/// The abstract table one decodable body with a normal group yields.
pub open spec fn ts_body_tv(gs: Seq<TsRicGroup>) -> crate::table::TableAbs {
    let names = ts_header_names(ts_first_normal(gs)->Some_0);
    (
        names,
        Seq::new(
            names.len(),
            |i: int|
                ts_row_pairs(gs).map_values(|p: (Seq<char>, Seq<Seq<char>>)| ts_cell(names, p, i)),
        ),
    )
}

/// The abstract tables of the bodies that yield one, in body order.
pub open spec fn ts_good_tvs(bodies: Seq<TsBody>) -> Seq<crate::table::TableAbs>
    decreases bodies.len(),
{
    if bodies.len() == 0 {
        Seq::empty()
    } else {
        let rest = ts_good_tvs(bodies.drop_first());
        match bodies[0] {
            TsBody::Malformed => rest,
            TsBody::Data(gs) => match ts_first_normal(gs@) {
                None => rest,
                Some(g0) => seq![ts_body_tv(gs@)] + rest,
            },
        }
    }
}

/// Finishes a time-series call once every chunk has resolved: an
/// empty outcome list is a no-data error; each decoded body becomes a
/// table (a bad body fails the call; a body without a normal group
/// contributes nothing), and when no body at all yields a table the
/// call fails for want of headers. The tables are merged left to
/// right by diagonal stacking, the wider table the base at each step;
/// a merge step between equally wide tables with different column
/// sets fails the call.
#[verifier::loop_isolation(false)]
#[verifier::rlimit(100)]
pub fn merge_results(bodies: Vec<TsBody>) -> (r: crate::utils::EkResults)
    ensures
        ({
            let bs = bodies@;
            &&& bs.len() == 0 ==> (r matches crate::utils::EkResults::Fail(e) && (
            e matches EkError::NoData(m) && m@ == "No data returned from Refinitiv"@))
            &&& bs.len() > 0 ==> match ts_scan_err(bs) {
                Some(bad) => r matches crate::utils::EkResults::Fail(e) && (match bad {
                    TsBody::Malformed => e matches EkError::Error(m) && m@
                        == "Could not turn tsData into array"@,
                    TsBody::Data(_) => e matches EkError::NoDataFrame(m) && m@
                        == "Could not parse as Polars df"@,
                }),
                None => {
                    let tvs = ts_good_tvs(bs);
                    if tvs.len() == 0 {
                        r matches crate::utils::EkResults::Fail(e) && (
                        e matches EkError::NoHeaders(m) && m@ == "Could not build headers"@)
                    } else {
                        match crate::table::fold_mergev(tvs) {
                            Some(tv) => r matches crate::utils::EkResults::DF(t) && t.tv() == tv
                                && t.wf(),
                            None => r matches crate::utils::EkResults::Fail(e) && (
                            e matches EkError::Error(m) && m@
                                == "Could not Select columns (vstack_diag)"@),
                        }
                    }
                },
            }
        }),
{
    let n = bodies.len();
    if n == 0 {
        return crate::utils::EkResults::Fail(
            EkError::NoData(String::from_str("No data returned from Refinitiv")),
        );
    }
    let ghost orig = bodies@;
    let mut df_vec: Vec<crate::table::Table> = Vec::new();
    let mut rest = bodies;
    while rest.len() > 0
        invariant
            ts_scan_err(orig) == ts_scan_err(rest@),
            ts_good_tvs(orig) == df_vec@.map_values(|t: crate::table::Table| t.tv()) + ts_good_tvs(
                rest@,
            ),
            forall|i: int| 0 <= i < df_vec@.len() ==> (#[trigger] df_vec@[i]).wf(),
        decreases rest@.len(),
    {
        let ghost before = rest@;
        let x = rest.remove(0);
        proof {
            assert(before.drop_first() =~= rest@);
            assert(before[0] == x);
        }
        match to_dataframe(x) {
            Err(e) => {
                proof {
                    assert(ts_body_bad(x));
                    assert(ts_scan_err(before) == Some(x));
                }
                return crate::utils::EkResults::Fail(e);
            },
            Ok(None) => {
                proof {
                    assert(!ts_body_bad(x));
                    assert(ts_scan_err(before) == ts_scan_err(rest@));
                    assert(ts_good_tvs(before) == ts_good_tvs(rest@));
                }
            },
            Ok(Some(t)) => {
                proof {
                    assert(!ts_body_bad(x));
                    let gs = x->Data_0;
                    let names = ts_header_names(ts_first_normal(gs@)->Some_0);
                    assert(t.cols() =~= ts_body_tv(gs@).1);
                    assert(t.tv() == ts_body_tv(gs@));
                    assert(ts_good_tvs(before) == seq![ts_body_tv(gs@)] + ts_good_tvs(rest@));
                }
                let ghost pre = df_vec@;
                df_vec.push(t);
                proof {
                    assert(df_vec@.map_values(|t: crate::table::Table| t.tv()) =~= pre.map_values(
                        |t: crate::table::Table| t.tv(),
                    ).push(df_vec@.last().tv()));
                    assert(ts_good_tvs(orig) =~= df_vec@.map_values(
                        |t: crate::table::Table| t.tv(),
                    ) + ts_good_tvs(rest@));
                }
            },
        }
    }
    proof {
        assert(ts_scan_err(orig) is None);
        assert(ts_good_tvs(orig) =~= df_vec@.map_values(|t: crate::table::Table| t.tv()));
    }
    if df_vec.len() == 0 {
        return crate::utils::EkResults::Fail(
            EkError::NoHeaders(String::from_str("Could not build headers")),
        );
    }
    let ghost tvs = ts_good_tvs(orig);
    proof {
        assert(df_vec@[0].wf());
    }
    let ghost dv0 = df_vec@;
    let mut df = df_vec.remove(0);
    let mut i: usize = 1;
    proof {
        assert(dv0.drop_first() =~= df_vec@);
        assert(forall|k: int| 0 <= k < df_vec@.len() ==> (#[trigger] df_vec@[k]).wf());
        assert(tvs.subrange(0, 1) =~= seq![tvs[0]]);
        assert(crate::table::fold_mergev(tvs.subrange(0, 1)) == Some(df.tv()));
        assert(df_vec@.map_values(|t: crate::table::Table| t.tv()) =~= tvs.subrange(
            1,
            tvs.len() as int,
        ));
    }
    while df_vec.len() > 0
        invariant
            1 <= i <= tvs.len(),
            df.wf(),
            forall|k: int| 0 <= k < df_vec@.len() ==> (#[trigger] df_vec@[k]).wf(),
            crate::table::fold_mergev(tvs.subrange(0, i as int)) == Some(df.tv()),
            df_vec@.map_values(|t: crate::table::Table| t.tv()) =~= tvs.subrange(
                i as int,
                tvs.len() as int,
            ),
        decreases df_vec@.len(),
    {
        let ghost dvbefore = df_vec@;
        let nxt = df_vec.remove(0);
        let ghost nv = nxt;
        proof {
            assert(nv.wf());
            assert(dvbefore[0] == nv);
            assert(dvbefore.map_values(|t: crate::table::Table| t.tv())[0] == nv.tv());
            assert(nv.tv() == tvs[i as int]);
            assert(dvbefore.drop_first() =~= df_vec@);
            assert(df_vec@.map_values(|t: crate::table::Table| t.tv()) =~= dvbefore.map_values(
                |t: crate::table::Table| t.tv(),
            ).drop_first());
            assert(df_vec@.map_values(|t: crate::table::Table| t.tv()) =~= tvs.subrange(
                i + 1,
                tvs.len() as int,
            ));
        }
        match crate::table::merge_pair(&df, nxt) {
            Ok(t) => {
                proof {
                    assert(tvs.subrange(0, i + 1).drop_last() =~= tvs.subrange(0, i as int));
                    assert(tvs.subrange(0, i + 1).last() == tvs[i as int]);
                    assert(crate::table::fold_mergev(tvs.subrange(0, i + 1)) == Some(t.tv()));
                }
                df = t;
            },
            Err(e) => {
                proof {
                    assert(tvs.subrange(0, i + 1).drop_last() =~= tvs.subrange(0, i as int));
                    assert(tvs.subrange(0, i + 1).last() == tvs[i as int]);
                    assert(crate::table::fold_mergev(tvs.subrange(0, i + 1)) is None);
                    crate::table::lemma_fold_mergev_none(tvs, i + 1);
                }
                return crate::utils::EkResults::Fail(e);
            },
        }
        i = i + 1;
    }
    proof {
        assert(i == tvs.len());
        assert(tvs.subrange(0, i as int) =~= tvs);
    }
    crate::utils::EkResults::DF(df)
}

} // verus!
