use vstd::prelude::*;

use crate::connection::Connection;
use crate::utils::EkError;

verus! {

/// The sampling frequency of a cross-sectional request's date range,
/// read from the `Frq` parameter.
#[derive(Debug)]
pub enum Frequency {
    Daily,
    Weekly,
    Monthly,
    Quarterly,
    SemiAnnual,
    Annual,
}

/// Which frequency a code names, compared without regard to ASCII
/// case; nothing for a code outside the recognized sets.
pub open spec fn spec_frequency_of(v: Seq<char>) -> Option<Frequency> {
    let l = crate::strutil::lower_seq(v);
    if l == "aw"@ || l == "w"@ || l == "cw"@ {
        Some(Frequency::Weekly)
    } else if l == "am"@ || l == "m"@ || l == "cm"@ {
        Some(Frequency::Monthly)
    } else if l == "aq"@ || l == "q"@ || l == "fq"@ || l == "fi"@ || l == "cq"@ || l == "f"@ {
        Some(Frequency::Quarterly)
    } else if l == "fs"@ || l == "fh"@ || l == "cs"@ || l == "ch"@ {
        Some(Frequency::SemiAnnual)
    } else if l == "ay"@ || l == "y"@ || l == "fy"@ || l == "cy"@ {
        Some(Frequency::Annual)
    } else if l == "d"@ {
        Some(Frequency::Daily)
    } else {
        None
    }
}

impl Frequency {
    /// Reads a frequency code, ignoring ASCII case; an unrecognized
    /// code is a configuration error rather than a silent default.
    pub fn new(frq: &str) -> (r: Result<Self, EkError>)
        ensures
            match spec_frequency_of(frq@) {
                Some(f) => r matches Ok(f2) && f2 == f,
                None => r matches Err(e) && (e matches EkError::Error(m) && m@
                    == "Unrecognized frequency code: "@ + frq@),
            },
    {
        if crate::strutil::str_eq_lower(frq, "aw") || crate::strutil::str_eq_lower(frq, "w")
            || crate::strutil::str_eq_lower(frq, "cw") {
            Ok(Frequency::Weekly)
        } else if crate::strutil::str_eq_lower(frq, "am") || crate::strutil::str_eq_lower(frq, "m")
            || crate::strutil::str_eq_lower(frq, "cm") {
            Ok(Frequency::Monthly)
        } else if crate::strutil::str_eq_lower(frq, "aq") || crate::strutil::str_eq_lower(frq, "q")
            || crate::strutil::str_eq_lower(frq, "fq") || crate::strutil::str_eq_lower(frq, "fi")
            || crate::strutil::str_eq_lower(frq, "cq") || crate::strutil::str_eq_lower(frq, "f") {
            Ok(Frequency::Quarterly)
        } else if crate::strutil::str_eq_lower(frq, "fs") || crate::strutil::str_eq_lower(frq, "fh")
            || crate::strutil::str_eq_lower(frq, "cs") || crate::strutil::str_eq_lower(
            frq,
            "ch",
        ) {
            Ok(Frequency::SemiAnnual)
        } else if crate::strutil::str_eq_lower(frq, "ay") || crate::strutil::str_eq_lower(frq, "y")
            || crate::strutil::str_eq_lower(frq, "fy") || crate::strutil::str_eq_lower(
            frq,
            "cy",
        ) {
            Ok(Frequency::Annual)
        } else if crate::strutil::str_eq_lower(frq, "d") {
            Ok(Frequency::Daily)
        } else {
            let mut m = String::from_str("Unrecognized frequency code: ");
            m.append(frq);
            Err(EkError::Error(m))
        }
    }
}

/// Days of calendar time per expected row at each frequency.
pub open spec fn freq_divisor(f: Frequency) -> int {
    match f {
        Frequency::Daily => 1,
        Frequency::Weekly => 7,
        Frequency::Monthly => 30,
        Frequency::Quarterly => 90,
        Frequency::SemiAnnual => 180,
        Frequency::Annual => 365,
    }
}

/// Days of calendar time per expected row at this frequency.
pub fn freq_divisor_of(f: &Frequency) -> (r: i64)
    ensures
        r as int == freq_divisor(*f),
{
    match f {
        Frequency::Daily => 1,
        Frequency::Weekly => 7,
        Frequency::Monthly => 30,
        Frequency::Quarterly => 90,
        Frequency::SemiAnnual => 180,
        Frequency::Annual => 365,
    }
}

/// How many identifiers one cross-sectional sub-request may carry for
/// a span of `span_days` days at frequency `f`: as many as keep the
/// expected `span_days / divisor` rows per identifier under 50,000
/// rows per response, at most 7,000 and never less than one. Without
/// a forward span the identifier cap alone limits the group.
pub open spec fn spec_dg_group_size(f: Frequency, span_days: int) -> int {
    if span_days <= 0 {
        7000
    } else {
        let g = (50000 * freq_divisor(f)) / span_days;
        if g > 7000 {
            7000
        } else if g < 1 {
            1
        } else {
            g
        }
    }
}

/// For a fixed day span, coarsening the frequency (a larger days-per-
/// row divisor, from daily through weekly, monthly, quarterly and
/// semiannual to annual) never shrinks the expected rows per
/// identifier, so it never shrinks the identifier group the row cap
/// allows.
pub proof fn lemma_dg_group_size_monotonic(f1: Frequency, f2: Frequency, span_days: int)
    requires
        freq_divisor(f1) <= freq_divisor(f2),
    ensures
        spec_dg_group_size(f1, span_days) <= spec_dg_group_size(f2, span_days),
{
    if span_days > 0 {
        vstd::arithmetic::div_mod::lemma_div_is_ordered(
            50000 * freq_divisor(f1),
            50000 * freq_divisor(f2),
            span_days,
        );
    }
}

/// Parses an ISO `%Y-%m-%d` date into its day number relative to
/// 1970-01-01; anything else is a date error.
pub fn str_to_date(d: &str) -> (r: Result<i64, EkError>)
    ensures
        match r {
            Ok(days) => crate::dates::ymd_days_of(d@) == Some(days as int)
                && -crate::dates::MAX_DAY_MAGNITUDE < days < crate::dates::MAX_DAY_MAGNITUDE,
            Err(e) => crate::dates::ymd_days_of(d@) is None && (e matches EkError::DateError(m)
                && m@ == "Could not parse SDate string as Date, please supply a ISO8601 compliant Date format"@),
        },
{
    match crate::dates::parse_ymd(d) {
        Some(days) => Ok(days),
        None => Err(
            EkError::DateError(
                String::from_str(
                    "Could not parse SDate string as Date, please supply a ISO8601 compliant Date format",
                ),
            ),
        ),
    }
}

/// The first value under `key` in a parameter list, if any.
pub open spec fn spec_lookup(ps: Seq<(String, String)>, key: Seq<char>) -> Option<Seq<char>>
    decreases ps.len(),
{
    if ps.len() == 0 {
        None
    } else if ps[0].0@ == key {
        Some(ps[0].1@)
    } else {
        spec_lookup(ps.drop_first(), key)
    }
}

/// Finds the first value under `key` in a parameter list.
pub fn lookup_param<'a>(ps: &'a Vec<(String, String)>, key: &str) -> (r: Option<&'a String>)
    ensures
        match r {
            Some(v) => spec_lookup(ps@, key@) == Some(v@),
            None => spec_lookup(ps@, key@) is None,
        },
{
    let n = ps.len();
    let mut i: usize = 0;
    proof {
        assert(ps@.subrange(0, n as int) =~= ps@);
    }
    while i < n
        invariant
            n == ps@.len(),
            i <= n,
            spec_lookup(ps@, key@) == spec_lookup(ps@.subrange(i as int, n as int), key@),
        decreases n - i,
    {
        proof {
            assert(ps@.subrange(i as int, n as int).drop_first() =~= ps@.subrange(
                i + 1,
                n as int,
            ));
            assert(ps@.subrange(i as int, n as int)[0] == ps@[i as int]);
        }
        if crate::strutil::str_eq(ps[i].0.as_str(), key) {
            return Some(&ps[i].1);
        }
        i = i + 1;
    }
    proof {
        assert(ps@.subrange(n as int, n as int).len() == 0);
    }
    None
}

/// The group size a parameter list implies: the day span runs from its
/// `SDate` (without one, the identifier cap alone limits the group) to
/// its `EDate` or, failing that, today; its `Frq` (default daily)
/// picks the row-estimate divisor. `None` stands for a malformed date
/// or an unrecognized frequency code.
pub open spec fn spec_dg_groups(ps: Option<Seq<(String, String)>>, today: int) -> Option<int> {
    match ps {
        None => Some(7000),
        Some(ps) => match spec_lookup(ps, "SDate"@) {
            None => Some(7000),
            Some(sd) => match crate::dates::ymd_days_of(sd) {
                None => None,
                Some(start) => {
                    let end = match spec_lookup(ps, "EDate"@) {
                        None => Some(today),
                        Some(ed) => crate::dates::ymd_days_of(ed),
                    };
                    match end {
                        None => None,
                        Some(end) => match spec_lookup(ps, "Frq"@) {
                            None => Some(spec_dg_group_size(Frequency::Daily, end - start)),
                            Some(f) => match spec_frequency_of(f) {
                                None => None,
                                Some(frq) => Some(spec_dg_group_size(frq, end - start)),
                            },
                        },
                    }
                },
            },
        },
    }
}

/// Whether the parameter list carries a malformed date: an `SDate`
/// that does not parse or, with a parsed `SDate`, an `EDate` that does
/// not.
pub open spec fn dg_date_bad(ps: Seq<(String, String)>) -> bool {
    match spec_lookup(ps, "SDate"@) {
        None => false,
        Some(sd) => crate::dates::ymd_days_of(sd) is None || (match spec_lookup(ps, "EDate"@) {
            None => false,
            Some(ed) => crate::dates::ymd_days_of(ed) is None,
        }),
    }
}

/// Whether the parameter list carries an unrecognized frequency code
/// where it matters: its dates parse (so the code is reached) and its
/// `Frq` names no known frequency.
pub open spec fn dg_frq_bad(ps: Seq<(String, String)>) -> bool {
    spec_lookup(ps, "SDate"@) is Some && !dg_date_bad(ps) && (match spec_lookup(ps, "Frq"@) {
        None => false,
        Some(f) => spec_frequency_of(f) is None,
    })
}

/// Decides how many identifiers each cross-sectional sub-request may
/// carry, from the request parameters and today's day number; a
/// malformed `SDate` or `EDate` is a date error, and an unrecognized
/// `Frq` code is a configuration error.
pub fn groups(parameters: &Option<Vec<(String, String)>>, today: i64) -> (r: Result<
    usize,
    EkError,
>)
    requires
        -crate::dates::MAX_DAY_MAGNITUDE < today < crate::dates::MAX_DAY_MAGNITUDE,
    ensures
        r matches Ok(g) ==> 1 <= g <= 7000,
        ({
            let ps = match parameters {
                Some(p) => Some(p@),
                None => None,
            };
            match r {
                Ok(g) => spec_dg_groups(ps, today as int) == Some(g as int),
                Err(e) => spec_dg_groups(ps, today as int) is None && (ps matches Some(psv) && (
                match e {
                    EkError::DateError(m) => dg_date_bad(psv) && m@
                        == "Could not parse SDate string as Date, please supply a ISO8601 compliant Date format"@,
                    EkError::Error(m) => dg_frq_bad(psv) && m@ == "Unrecognized frequency code: "@
                        + spec_lookup(psv, "Frq"@)->Some_0,
                    _ => false,
                })),
            }
        }),
{
    let ps = match parameters {
        None => {
            return Ok(7000);
        },
        Some(p) => p,
    };
    let sd = match lookup_param(ps, "SDate") {
        None => {
            return Ok(7000);
        },
        Some(sd) => sd,
    };
    let start = match str_to_date(sd.as_str()) {
        Ok(d) => d,
        Err(e) => {
            return Err(e);
        },
    };
    let end = match lookup_param(ps, "EDate") {
        None => today,
        Some(ed) => match str_to_date(ed.as_str()) {
            Ok(d) => d,
            Err(e) => {
                return Err(e);
            },
        },
    };
    let frq = match lookup_param(ps, "Frq") {
        None => Frequency::Daily,
        Some(f) => match Frequency::new(f.as_str()) {
            Ok(fr) => fr,
            Err(e) => {
                return Err(e);
            },
        },
    };
    let span = end - start;
    if span <= 0 {
        return Ok(7000);
    }
    let div = freq_divisor_of(&frq);
    let g = (50000 * div) / span;
    if g > 7000 {
        Ok(7000)
    } else if g < 1 {
        Ok(1)
    } else {
        Ok(g as usize)
    }
}

/// One header cell of a cross-sectional response: the display name's
/// raw JSON text, and the raw field code when the service sent one.
pub struct DgHeaderCell {
    pub display_name: String,
    pub field: Option<String>,
}

/// The decoded data of one cross-sectional response: its header list,
/// when it exposes one, and its rows of raw JSON cell texts.
pub struct DgData {
    pub headers: Option<Vec<DgHeaderCell>>,
    pub rows: Vec<Vec<String>>,
}

/// One decoded cross-sectional response body: a response (perhaps
/// carrying an asynchronous ticket), a server-reported error, or a
/// body with neither.
pub enum DgBody {
    Responses { ticket: Option<String>, data: DgData },
    ErrorInfo { code: Option<u64>, code_text: String, message: String },
    Neither,
}

/// One successful chunk outcome: the body's raw text, for raw mode,
/// and its decoded data, for merging.
pub struct DgResult {
    pub raw: String,
    pub data: DgData,
}

/// The column name one header cell yields: with `field_name`, the
/// field code (falling back to the display name); without it, the
/// display name. Either way the name is stripped of quote characters.
pub open spec fn header_name(c: DgHeaderCell, field_name: bool) -> Seq<char> {
    if field_name {
        match c.field {
            Some(f) => crate::utils::strip_quotes(f@),
            None => crate::utils::strip_quotes(c.display_name@),
        }
    } else {
        crate::utils::strip_quotes(c.display_name@)
    }
}

/// The column names a header list yields.
pub open spec fn headers_view(hs: Seq<DgHeaderCell>, field_name: bool) -> Seq<Seq<char>> {
    hs.map_values(|c: DgHeaderCell| header_name(c, field_name))
}

/// The first response that exposes a header list, scanning in order.
pub open spec fn dg_first_headers(resps: Seq<DgData>) -> Option<Seq<DgHeaderCell>>
    decreases resps.len(),
{
    if resps.len() == 0 {
        None
    } else {
        match resps[0].headers {
            Some(h) => Some(h@),
            None => dg_first_headers(resps.drop_first()),
        }
    }
}

/// The abstract values of a list of rows.
pub open spec fn rows_view(s: Seq<Vec<String>>) -> Seq<Seq<Seq<char>>> {
    s.map_values(|v: Vec<String>| crate::jsontext::strs_view(v@))
}

/// All rows of all responses, in response order.
pub open spec fn dg_rows(resps: Seq<DgData>) -> Seq<Seq<Seq<char>>> {
    resps.map_values(|r: DgData| rows_view(r.rows@)).flatten()
}

/// The raw text at position `col` of a row; a row too short reads as
/// the text of a JSON null.
pub open spec fn cell_text(row: Seq<Seq<char>>, col: int) -> Seq<char> {
    if 0 <= col < row.len() {
        row[col]
    } else {
        "null"@
    }
}

/// Column `col` of the merged cross-sectional table: every row's cell
/// at that position, quote-stripped.
pub open spec fn dg_col(resps: Seq<DgData>, col: int) -> Seq<Option<Seq<char>>> {
    dg_rows(resps).map_values(|row: Seq<Seq<char>>| Some(crate::utils::strip_quotes(cell_text(row, col))))
}

/// No two names equal.
pub open spec fn unique_names(names: Seq<Seq<char>>) -> bool {
    forall|j: int, k: int| 0 <= j < k < names.len() ==> names[j] != names[k]
}

/// Reads the column names of one response, if it exposes headers.
pub fn fetch_headers(json_like: &DgData, field_name: bool) -> (r: Option<Vec<String>>)
    ensures
        match json_like.headers {
            None => r is None,
            Some(hs) => r matches Some(v) && crate::jsontext::strs_view(v@) == headers_view(
                hs@,
                field_name,
            ),
        },
{
    let hs = match &json_like.headers {
        None => {
            return None;
        },
        Some(hs) => hs,
    };
    let n = hs.len();
    let mut names: Vec<String> = Vec::new();
    let mut i: usize = 0;
    while i < n
        invariant
            n == hs@.len(),
            i <= n,
            crate::jsontext::strs_view(names@) =~= headers_view(hs@.subrange(0, i as int), field_name),
        decreases n - i,
    {
        let ghost pre = names@;
        let name = if field_name {
            match &hs[i].field {
                Some(f) => crate::utils::clean_string(f.clone()),
                None => crate::utils::clean_string(hs[i].display_name.clone()),
            }
        } else {
            crate::utils::clean_string(hs[i].display_name.clone())
        };
        names.push(name);
        proof {
            assert(crate::jsontext::strs_view(names@) =~= crate::jsontext::strs_view(pre).push(
                name@,
            ));
            assert(hs@.subrange(0, i + 1) =~= hs@.subrange(0, i as int).push(hs@[i as int]));
            assert(headers_view(hs@.subrange(0, i + 1), field_name) =~= headers_view(
                hs@.subrange(0, i as int),
                field_name,
            ).push(header_name(hs@[i as int], field_name)));
        }
        i = i + 1;
    }
    proof {
        assert(hs@.subrange(0, n as int) == hs@);
    }
    Some(names)
}

pub(crate) fn clone_strs(v: &Vec<String>) -> (r: Vec<String>)
    ensures
        crate::jsontext::strs_view(r@) == crate::jsontext::strs_view(v@),
{
    let n = v.len();
    let mut r: Vec<String> = Vec::new();
    let mut i: usize = 0;
    while i < n
        invariant
            n == v@.len(),
            i <= n,
            crate::jsontext::strs_view(r@) =~= crate::jsontext::strs_view(v@.subrange(0, i as int)),
        decreases n - i,
    {
        let ghost pre = r@;
        r.push(v[i].clone());
        proof {
            assert(crate::jsontext::strs_view(r@) =~= crate::jsontext::strs_view(pre).push(
                v@[i as int]@,
            ));
            assert(v@.subrange(0, i + 1) =~= v@.subrange(0, i as int).push(v@[i as int]));
        }
        i = i + 1;
    }
    proof {
        assert(v@.subrange(0, n as int) == v@);
    }
    r
}

/// Gathers every row of every response into one list, in order.
fn collect_rows(resps: &Vec<DgData>) -> (out: Vec<Vec<String>>)
    ensures
        rows_view(out@) == dg_rows(resps@),
{
    let n = resps.len();
    let mut out: Vec<Vec<String>> = Vec::new();
    let mut a: usize = 0;
    proof {
        assert(resps@.subrange(0, 0).map_values(|r: DgData| rows_view(r.rows@)).flatten() =~= Seq::<
            Seq<Seq<char>>,
        >::empty());
        assert(rows_view(out@) =~= Seq::<Seq<Seq<char>>>::empty());
    }
    while a < n
        invariant
            n == resps@.len(),
            a <= n,
            rows_view(out@) == resps@.subrange(0, a as int).map_values(
                |r: DgData| rows_view(r.rows@),
            ).flatten(),
        decreases n - a,
    {
        let rows = &resps[a].rows;
        let m = rows.len();
        let mut b: usize = 0;
        let ghost base = rows_view(out@);
        while b < m
            invariant
                n == resps@.len(),
                a < n,
                m == resps@[a as int].rows@.len(),
                b <= m,
                rows == resps@[a as int].rows,
                base == resps@.subrange(0, a as int).map_values(
                    |r: DgData| rows_view(r.rows@),
                ).flatten(),
                rows_view(out@) =~= base + rows_view(resps@[a as int].rows@.subrange(0, b as int)),
            decreases m - b,
        {
            let ghost pre = out@;
            out.push(clone_strs(&rows[b]));
            proof {
                assert(rows_view(out@) =~= rows_view(pre).push(crate::jsontext::strs_view(
                    resps@[a as int].rows@[b as int]@,
                )));
                assert(resps@[a as int].rows@.subrange(0, b + 1) =~= resps@[a as int].rows@.subrange(
                    0,
                    b as int,
                ).push(resps@[a as int].rows@[b as int]));
                assert(rows_view(resps@[a as int].rows@.subrange(0, b + 1)) =~= rows_view(
                    resps@[a as int].rows@.subrange(0, b as int),
                ).push(crate::jsontext::strs_view(resps@[a as int].rows@[b as int]@)));
            }
            b = b + 1;
        }
        proof {
            assert(resps@[a as int].rows@.subrange(0, m as int) == resps@[a as int].rows@);
            let m0 = resps@.subrange(0, a as int).map_values(|r: DgData| rows_view(r.rows@));
            let m1 = resps@.subrange(0, a + 1).map_values(|r: DgData| rows_view(r.rows@));
            assert(m1.drop_last() =~= m0);
            assert(m1.last() == rows_view(resps@[a as int].rows@));
            m0.lemma_flatten_and_flatten_alt_are_equivalent();
            m1.lemma_flatten_and_flatten_alt_are_equivalent();
            assert(m1.flatten_alt() == m1.drop_last().flatten_alt() + m1.last());
            assert(rows_view(out@) =~= m1.flatten());
        }
        a = a + 1;
    }
    proof {
        assert(resps@.subrange(0, n as int) == resps@);
    }
    out
}

/// True when no two of these names are equal.
pub(crate) fn names_unique(v: &Vec<String>) -> (r: bool)
    ensures
        r == unique_names(crate::jsontext::strs_view(v@)),
{
    let n = v.len();
    let mut j: usize = 0;
    while j < n
        invariant
            n == v@.len(),
            j <= n,
            forall|x: int, y: int| 0 <= x < y < n && x < j ==> v@[x]@ != v@[y]@,
        decreases n - j,
    {
        let mut k: usize = j + 1;
        while k < n
            invariant
                n == v@.len(),
                j < k <= n || (j + 1 == k && k > n),
                j < n,
                forall|y: int| j < y < k ==> v@[j as int]@ != v@[y]@,
            decreases n - k,
        {
            if crate::strutil::str_eq(v[j].as_str(), v[k].as_str()) {
                assert(crate::jsontext::strs_view(v@)[j as int] == crate::jsontext::strs_view(
                    v@,
                )[k as int]);
                return false;
            }
            k = k + 1;
        }
        j = j + 1;
    }
    proof {
        assert forall|x: int, y: int|
            0 <= x < y < crate::jsontext::strs_view(v@).len() implies crate::jsontext::strs_view(
            v@,
        )[x] != crate::jsontext::strs_view(v@)[y] by {
            assert(v@[x]@ != v@[y]@);
        }
    }
    true
}

/// Scans the responses in order for the first that exposes headers,
/// and reads its column names.
fn first_headers(resps: &Vec<DgData>, field_name: bool) -> (r: Option<Vec<String>>)
    ensures
        match dg_first_headers(resps@) {
            None => r is None,
            Some(hs) => r matches Some(v) && crate::jsontext::strs_view(v@) == headers_view(
                hs,
                field_name,
            ),
        },
{
    let n = resps.len();
    let mut i: usize = 0;
    proof {
        assert(resps@.subrange(0, n as int) =~= resps@);
    }
    while i < n
        invariant
            n == resps@.len(),
            i <= n,
            dg_first_headers(resps@) == dg_first_headers(resps@.subrange(i as int, n as int)),
        decreases n - i,
    {
        proof {
            assert(resps@.subrange(i as int, n as int).drop_first() =~= resps@.subrange(
                i + 1,
                n as int,
            ));
            assert(resps@.subrange(i as int, n as int)[0] == resps@[i as int]);
        }
        match fetch_headers(&resps[i], field_name) {
            None => {
                i = i + 1;
            },
            Some(h) => {
                return Some(h);
            },
        }
    }
    proof {
        assert(resps@.subrange(n as int, n as int).len() == 0);
    }
    None
}

/// Builds the merged cross-sectional table: the first response that
/// exposes headers names the columns; each response's rows follow in
/// response order, each cell quote-stripped, with a JSON null text for
/// cells past a row's end. Without headers anywhere, or with a
/// duplicated column name, the merge fails.
pub fn to_dataframe(json_like: Vec<DgData>, field_name: bool) -> (r: Result<
    crate::table::Table,
    EkError,
>)
    ensures
        ({
            match dg_first_headers(json_like@) {
                None => r matches Err(e) && (e matches EkError::NoHeaders(m) && m@
                    == "Could not build headers"@),
                Some(hs) => {
                    let names = headers_view(hs, field_name);
                    if unique_names(names) {
                        &&& r matches Ok(t)
                        &&& r matches Ok(t) ==> {
                            &&& t.wf()
                            &&& t.names() == names
                            &&& t.ncols() == names.len()
                            &&& names.len() > 0 ==> t.nrows() == dg_rows(json_like@).len()
                            &&& forall|j: int|
                                0 <= j < names.len() ==> #[trigger] t.col(j) == dg_col(
                                    json_like@,
                                    j,
                                )
                        }
                    } else {
                        r matches Err(e) && (e matches EkError::NoDataFrame(m) && m@
                            == "duplicate column names"@)
                    }
                },
            }
        }),
{
    let headers = match first_headers(&json_like, field_name) {
        None => {
            return Err(EkError::NoHeaders(String::from_str("Could not build headers")));
        },
        Some(h) => h,
    };
    if !names_unique(&headers) {
        return Err(EkError::NoDataFrame(String::from_str("duplicate column names")));
    }
    let rows = collect_rows(&json_like);
    let ncols = headers.len();
    let nrows = rows.len();
    let mut cols: Vec<crate::table::Column> = Vec::new();
    let mut j: usize = 0;
    while j < ncols
        invariant
            ncols == headers@.len(),
            nrows == rows@.len(),
            rows_view(rows@) == dg_rows(json_like@),
            j <= ncols,
            cols@.len() == j,
            forall|k: int| 0 <= k < j ==> (#[trigger] cols@[k].name@) == headers@[k]@,
            forall|k: int| 0 <= k < j ==> (#[trigger] cols@[k].vals()) == dg_col(json_like@, k),
            forall|k: int| 0 <= k < j ==> (#[trigger] cols@[k].values@.len()) == nrows,
        decreases ncols - j,
    {
        let mut values: Vec<Option<String>> = Vec::new();
        let mut b: usize = 0;
        while b < nrows
            invariant
                ncols == headers@.len(),
                nrows == rows@.len(),
                rows_view(rows@) == dg_rows(json_like@),
                j < ncols,
                b <= nrows,
                values@.len() == b,
                forall|x: int|
                    0 <= x < b ==> crate::table::val_view(#[trigger] values@[x]) == dg_col(
                        json_like@,
                        j as int,
                    )[x],
            decreases nrows - b,
        {
            let row = &rows[b];
            let c = if j < row.len() {
                row[j].clone()
            } else {
                String::from_str("null")
            };
            proof {
                assert(c@ == cell_text(rows_view(rows@)[b as int], j as int));
            }
            values.push(Some(crate::utils::clean_string(c)));
            b = b + 1;
        }
        cols.push(
            crate::table::Column { name: headers[j].clone(), values },
        );
        proof {
            assert(cols@.last().vals() =~= dg_col(json_like@, j as int));
        }
        j = j + 1;
    }
    let t = crate::table::Table { columns: cols };
    proof {
        assert(t.names() =~= crate::jsontext::strs_view(headers@));
        assert forall|a: int, b2: int| 0 <= a < b2 < t.ncols() implies t.names()[a]
            != t.names()[b2] by {
            assert(crate::jsontext::strs_view(headers@)[a] != crate::jsontext::strs_view(
                headers@,
            )[b2]);
        }
        assert(t.wf());
        assert forall|k: int| 0 <= k < t.ncols() implies #[trigger] t.col(k) == dg_col(
            json_like@,
            k,
        ) by {
            assert(cols@[k].vals() == dg_col(json_like@, k));
        }
    }
    Ok(t)
}

/// Finishes a cross-sectional call once every chunk has resolved: no
/// successful chunk at all is a no-data error; in raw mode the raw
/// body texts come back unmerged; otherwise the decoded responses are
/// merged into one table.
pub fn merge_results(results: Vec<DgResult>, settings: &crate::utils::Settings) -> (r:
    crate::utils::EkResults)
    ensures
        ({
            let resps = results@.map_values(|x: DgResult| x.data);
            &&& results@.len() == 0 ==> (r matches crate::utils::EkResults::Fail(e) && (
            e matches EkError::NoData(m) && m@ == "No data returned from Refinitiv"@))
            &&& results@.len() > 0 && settings.raw ==> (r matches crate::utils::EkResults::Raw(v)
                && crate::jsontext::strs_view(v@) == results@.map_values(|x: DgResult| x.raw@))
            &&& results@.len() > 0 && !settings.raw ==> match dg_first_headers(resps) {
                None => r matches crate::utils::EkResults::Fail(e) && (
                e matches EkError::NoHeaders(m) && m@ == "Could not build headers"@),
                Some(hs) => {
                    let names = headers_view(hs, settings.field_name);
                    if unique_names(names) {
                        r matches crate::utils::EkResults::DF(t) && {
                            &&& t.wf()
                            &&& t.names() == names
                            &&& t.ncols() == names.len()
                            &&& names.len() > 0 ==> t.nrows() == dg_rows(resps).len()
                            &&& forall|j: int|
                                0 <= j < names.len() ==> #[trigger] t.col(j) == dg_col(resps, j)
                        }
                    } else {
                        r matches crate::utils::EkResults::Fail(e) && (
                        e matches EkError::NoDataFrame(m) && m@ == "duplicate column names"@)
                    }
                },
            }
        }),
{
    let n = results.len();
    if n == 0 {
        return crate::utils::EkResults::Fail(
            EkError::NoData(String::from_str("No data returned from Refinitiv")),
        );
    }
    if settings.raw {
        let mut raws: Vec<String> = Vec::new();
        let mut i: usize = 0;
        while i < n
            invariant
                n == results@.len(),
                i <= n,
                crate::jsontext::strs_view(raws@) =~= results@.subrange(0, i as int).map_values(
                    |x: DgResult| x.raw@,
                ),
            decreases n - i,
        {
            let ghost pre = raws@;
            raws.push(results[i].raw.clone());
            proof {
                assert(crate::jsontext::strs_view(raws@) =~= crate::jsontext::strs_view(pre).push(
                    results@[i as int].raw@,
                ));
                assert(results@.subrange(0, i + 1) =~= results@.subrange(0, i as int).push(
                    results@[i as int],
                ));
            }
            i = i + 1;
        }
        proof {
            assert(results@.subrange(0, n as int) == results@);
            assert(crate::jsontext::strs_view(raws@) =~= results@.map_values(
                |x: DgResult| x.raw@,
            ));
        }
        return crate::utils::EkResults::Raw(raws);
    }
    let ghost orig = results@;
    let mut datas: Vec<DgData> = Vec::new();
    let mut rest = results;
    while rest.len() > 0
        invariant
            orig.len() == datas@.len() + rest@.len(),
            rest@ =~= orig.subrange(datas@.len() as int, orig.len() as int),
            datas@ =~= orig.subrange(0, datas@.len() as int).map_values(|x: DgResult| x.data),
        decreases rest@.len(),
    {
        let ghost k = datas@.len() as int;
        let x = rest.remove(0);
        datas.push(x.data);
        proof {
            assert(rest@ =~= orig.subrange(k + 1, orig.len() as int));
            assert(orig.subrange(0, k + 1) =~= orig.subrange(0, k).push(orig[k]));
            assert(datas@ =~= orig.subrange(0, k + 1).map_values(|x: DgResult| x.data));
        }
    }
    proof {
        assert(datas@ =~= orig.map_values(|x: DgResult| x.data));
    }
    match to_dataframe(datas, settings.field_name) {
        Ok(t) => crate::utils::EkResults::DF(t),
        Err(e) => crate::utils::EkResults::Fail(e),
    }
}

/// The cross-sectional data family, dispatched through a session.
pub struct Datagrid {
    pub connection: Connection,
}

/// The wire text of one cross-sectional sub-request: the identifier
/// group, the field list (already rendered) and, when given, the
/// request parameters.
pub open spec fn dg_payload_text(
    instruments: Seq<Seq<char>>,
    fields_text: Seq<char>,
    params: Option<Seq<(Seq<char>, Seq<char>)>>,
) -> Seq<char> {
    match params {
        None => "{\"requests\":[{\"instruments\":"@ + crate::jsontext::string_array_text(
            instruments,
        ) + ",\"fields\":"@ + fields_text + "}]}"@,
        Some(ps) => "{\"requests\":[{\"instruments\":"@ + crate::jsontext::string_array_text(
            instruments,
        ) + ",\"fields\":"@ + fields_text + ",\"parameters\":"@
            + crate::jsontext::string_object_text(ps) + "}]}"@,
    }
}

impl Datagrid {
    /// A cross-sectional dispatcher over a session.
    pub fn new(c: Connection) -> (r: Self)
        ensures
            r.connection == c,
    {
        Datagrid { connection: c }
    }

    /// Renders one cross-sectional sub-request payload.
    pub fn assemble_payload(
        &self,
        instruments: &Vec<String>,
        fields: &str,
        param: &Option<Vec<(String, String)>>,
    ) -> (r: String)
        ensures
            r@ == dg_payload_text(
                crate::jsontext::strs_view(instruments@),
                fields@,
                match param {
                    Some(p) => Some(crate::jsontext::pairs_view(p@)),
                    None => None,
                },
            ),
    {
        let mut out = String::from_str("{\"requests\":[{\"instruments\":");
        let arr = crate::jsontext::json_string_array(instruments);
        out.append(arr.as_str());
        out.append(",\"fields\":");
        out.append(fields);
        match param {
            None => {
                out.append("}]}");
            },
            Some(p) => {
                out.append(",\"parameters\":");
                let obj = crate::jsontext::json_string_object(p);
                out.append(obj.as_str());
                out.append("}]}");
            },
        }
        out
    }

    /// Plans the physical sub-requests for a cross-sectional query:
    /// the parameters (and today's day number, for a missing end
    /// date) decide the identifier group size, the identifiers are
    /// cut into contiguous groups of that size, and one payload is
    /// rendered per group, in order. Together the payloads cover each
    /// identifier exactly once.
    #[verifier::loop_isolation(false)]
    pub fn plan_payloads(
        &self,
        instruments: &Vec<String>,
        fields: &str,
        parameters: &Option<Vec<(String, String)>>,
        today: i64,
    ) -> (r: Result<Vec<String>, EkError>)
        requires
            -crate::dates::MAX_DAY_MAGNITUDE < today < crate::dates::MAX_DAY_MAGNITUDE,
        ensures
            ({
                let ps = match parameters {
                    Some(p) => Some(p@),
                    None => None,
                };
                let pv = match parameters {
                    Some(p) => Some(crate::jsontext::pairs_view(p@)),
                    None => None,
                };
                match spec_dg_groups(ps, today as int) {
                    None => r matches Err(e) && (ps matches Some(psv) && (match e {
                        EkError::DateError(m) => dg_date_bad(psv) && m@
                            == "Could not parse SDate string as Date, please supply a ISO8601 compliant Date format"@,
                        EkError::Error(m) => dg_frq_bad(psv) && m@
                            == "Unrecognized frequency code: "@ + spec_lookup(psv, "Frq"@)->Some_0,
                        _ => false,
                    })),
                    Some(g) => r matches Ok(v) && {
                        let gs = crate::utils::chunks_of(
                            crate::jsontext::strs_view(instruments@),
                            g,
                        );
                        &&& v@.len() == gs.len()
                        &&& forall|k: int|
                            0 <= k < gs.len() ==> (#[trigger] v@[k])@ == dg_payload_text(
                                gs[k],
                                fields@,
                                pv,
                            )
                    },
                }
            }),
    {
        let group_size = match groups(parameters, today) {
            Ok(g) => g,
            Err(e) => {
                return Err(e);
            },
        };
        let gvec = crate::utils::chunk_identifiers(instruments, group_size);
        let ghost gs = crate::utils::chunks_of(
            crate::jsontext::strs_view(instruments@),
            group_size as int,
        );
        let n = gvec.len();
        proof {
            assert(n as int == gs.len());
        }
        let mut payloads: Vec<String> = Vec::new();
        let mut k: usize = 0;
        while k < n
            invariant
                k <= n,
                payloads@.len() == k,
                forall|x: int|
                    0 <= x < k ==> (#[trigger] payloads@[x])@ == dg_payload_text(
                        gs[x],
                        fields@,
                        match parameters {
                            Some(p) => Some(crate::jsontext::pairs_view(p@)),
                            None => None,
                        },
                    ),
            decreases n - k,
        {
            let p = self.assemble_payload(&gvec[k], fields, parameters);
            payloads.push(p);
            proof {
                assert(crate::utils::groups_view(gvec@)[k as int] == crate::jsontext::strs_view(
                    gvec@[k as int]@,
                ));
            }
            k = k + 1;
        }
        Ok(payloads)
    }
}

} // verus!
