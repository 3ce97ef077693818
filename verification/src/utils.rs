use vstd::prelude::*;

use crate::table::Table;

verus! {

/// What `clean_string` keeps: every character except the double quote.
pub open spec fn strip_quotes(s: Seq<char>) -> Seq<char> {
    s.filter(|c: char| c != '"')
}

/// Removes every double-quote character from a string, as used to
/// normalize cell values and headers taken from raw JSON text.
pub fn clean_string(s: String) -> (r: String)
    ensures
        r@ == strip_quotes(s@),
{
    let mut out = String::new();
    let n = s.as_str().unicode_len();
    let mut i: usize = 0;
    while i < n
        invariant
            n == s@.len(),
            i <= n,
            out@ == strip_quotes(s@.subrange(0, i as int)),
        decreases n - i,
    {
        let c = s.as_str().get_char(i);
        proof {
            reveal(Seq::filter);
            assert(s@.subrange(0, i + 1).drop_last() =~= s@.subrange(0, i as int));
            assert(s@.subrange(0, i + 1).last() == c);
        }
        if c != '"' {
            out.append(s.as_str().substring_char(i, i + 1));
            proof {
                assert(s@.subrange(i as int, i + 1) =~= seq![c]);
                assert(strip_quotes(s@.subrange(0, i as int)).push(c) =~= strip_quotes(
                    s@.subrange(0, i as int),
                ) + seq![c]);
            }
        }
        i = i + 1;
    }
    proof {
        assert(s@.subrange(0, n as int) == s@);
    }
    out
}

/// The errors a call can surface.
#[derive(Debug)]
pub enum EkError {
    NoData(String),
    NoHeaders(String),
    NoDataFrame(String),
    AuthError(String),
    ConnectionError(String),
    ThreadError(String),
    DateError(String),
    Error(String),
}

impl EkError {
    /// The human-readable text of this error.
    pub open spec fn spec_text(&self) -> Seq<char> {
        match self {
            EkError::NoData(e) => "No data returned: "@ + e@,
            EkError::NoHeaders(e) => "No headers returned: "@ + e@,
            EkError::NoDataFrame(e) => "No dataframe returned: "@ + e@,
            EkError::AuthError(e) => "Authentication error: "@ + e@,
            EkError::ConnectionError(e) => "Connection error: "@ + e@,
            EkError::ThreadError(e) => "Thread error: "@ + e@,
            EkError::DateError(e) => "Date error: "@ + e@,
            EkError::Error(e) => "Error: "@ + e@,
        }
    }

    /// Renders the error as text, with a prefix naming its kind.
    pub fn describe(&self) -> (r: String)
        ensures
            r@ == self.spec_text(),
    {
        let (prefix, detail) = match self {
            EkError::NoData(e) => ("No data returned: ", e),
            EkError::NoHeaders(e) => ("No headers returned: ", e),
            EkError::NoDataFrame(e) => ("No dataframe returned: ", e),
            EkError::AuthError(e) => ("Authentication error: ", e),
            EkError::ConnectionError(e) => ("Connection error: ", e),
            EkError::ThreadError(e) => ("Thread error: ", e),
            EkError::DateError(e) => ("Date error: ", e),
            EkError::Error(e) => ("Error: ", e),
        };
        let mut out = String::from_str(prefix);
        out.append(detail.as_str());
        out
    }
}

/// What one logical call hands back: a merged table, the raw per-chunk
/// payload texts, or an error.
pub enum EkResults {
    DF(Table),
    Raw(Vec<String>),
    Fail(EkError),
}

/// The caller-supplied options a call recognizes: `raw` returns the
/// per-chunk payloads unmerged; `field_name` selects raw field codes
/// over display names as headers.
pub struct Settings {
    pub raw: bool,
    pub field_name: bool,
}

/// The wire text of one requested field without parameters.
pub open spec fn named_field_text(name: Seq<char>) -> Seq<char> {
    "{\"name\":"@ + crate::jsontext::json_quoted(name) + "}"@
}

/// The wire text of one requested field with its parameter map.
pub open spec fn param_field_text(name: Seq<char>, ps: Seq<(Seq<char>, Seq<char>)>) -> Seq<char> {
    "{\"name\":"@ + crate::jsontext::json_quoted(name) + ",\"parameters\":"@
        + crate::jsontext::string_object_text(ps) + "}"@
}

/// The wire text of a field list without parameters.
pub open spec fn no_params_fields_text(names: Seq<Seq<char>>) -> Seq<char> {
    "["@ + crate::jsontext::comma_join(names.map_values(|n: Seq<char>| named_field_text(n)))
        + "]"@
}

/// The abstract values of a parameterized field list.
pub open spec fn param_fields_view(s: Seq<(String, Vec<(String, String)>)>) -> Seq<
    (Seq<char>, Seq<(Seq<char>, Seq<char>)>),
> {
    s.map_values(
        |p: (String, Vec<(String, String)>)| (p.0@, crate::jsontext::pairs_view(p.1@)),
    )
}

/// The wire text of a field list with parameters.
pub open spec fn params_fields_text(fs: Seq<(Seq<char>, Seq<(Seq<char>, Seq<char>)>)>) -> Seq<
    char,
> {
    "["@ + crate::jsontext::comma_join(
        fs.map_values(|p: (Seq<char>, Seq<(Seq<char>, Seq<char>)>)| param_field_text(p.0, p.1)),
    ) + "]"@
}

/// A requested field list: names alone, or names each with a
/// parameter map, kept in the caller's order.
pub enum Fields {
    Params(Vec<(String, Vec<(String, String)>)>),
    NoParams(Vec<String>),
}

/// Renders a field list as the JSON array the service expects.
pub fn field_builder(fields: Fields) -> (r: String)
    ensures
        match fields {
            Fields::NoParams(v) => r@ == no_params_fields_text(crate::jsontext::strs_view(v@)),
            Fields::Params(v) => r@ == params_fields_text(param_fields_view(v@)),
        },
{
    let mut out = String::from_str("[");
    match &fields {
        Fields::NoParams(v) => {
            let n = v.len();
            let mut i: usize = 0;
            while i < n
                invariant
                    n == v@.len(),
                    i <= n,
                    out@ == "["@ + crate::jsontext::comma_join(
                        crate::jsontext::strs_view(v@.subrange(0, i as int)).map_values(
                            |nm: Seq<char>| named_field_text(nm),
                        ),
                    ),
                decreases n - i,
            {
                if i > 0 {
                    out.append(",");
                }
                out.append("{\"name\":");
                let q = crate::jsontext::json_quote(v[i].as_str());
                out.append(q.as_str());
                out.append("}");
                proof {
                    let pre = crate::jsontext::strs_view(v@.subrange(0, i as int)).map_values(
                        |nm: Seq<char>| named_field_text(nm),
                    );
                    let cur = crate::jsontext::strs_view(v@.subrange(0, i + 1)).map_values(
                        |nm: Seq<char>| named_field_text(nm),
                    );
                    assert(cur.drop_last() =~= pre);
                    assert(cur.last() == named_field_text(v@[i as int]@));
                    if i == 0 {
                        assert(crate::jsontext::comma_join(cur) == cur[0]);
                        assert(out@ =~= "["@ + crate::jsontext::comma_join(cur));
                    } else {
                        assert(out@ =~= "["@ + crate::jsontext::comma_join(cur));
                    }
                }
                i = i + 1;
            }
            proof {
                assert(v@.subrange(0, n as int) == v@);
            }
        },
        Fields::Params(v) => {
            let n = v.len();
            let mut i: usize = 0;
            while i < n
                invariant
                    n == v@.len(),
                    i <= n,
                    out@ == "["@ + crate::jsontext::comma_join(
                        param_fields_view(v@.subrange(0, i as int)).map_values(
                            |p: (Seq<char>, Seq<(Seq<char>, Seq<char>)>)| param_field_text(
                                p.0,
                                p.1,
                            ),
                        ),
                    ),
                decreases n - i,
            {
                if i > 0 {
                    out.append(",");
                }
                out.append("{\"name\":");
                let q = crate::jsontext::json_quote(v[i].0.as_str());
                out.append(q.as_str());
                out.append(",\"parameters\":");
                let obj = crate::jsontext::json_string_object(&v[i].1);
                out.append(obj.as_str());
                out.append("}");
                proof {
                    let pre = param_fields_view(v@.subrange(0, i as int)).map_values(
                        |p: (Seq<char>, Seq<(Seq<char>, Seq<char>)>)| param_field_text(p.0, p.1),
                    );
                    let cur = param_fields_view(v@.subrange(0, i + 1)).map_values(
                        |p: (Seq<char>, Seq<(Seq<char>, Seq<char>)>)| param_field_text(p.0, p.1),
                    );
                    assert(cur.drop_last() =~= pre);
                    assert(cur.last() == param_field_text(
                        v@[i as int].0@,
                        crate::jsontext::pairs_view(v@[i as int].1@),
                    ));
                    assert(out@ =~= "["@ + crate::jsontext::comma_join(cur));
                }
                i = i + 1;
            }
            proof {
                assert(v@.subrange(0, n as int) == v@);
            }
        },
    }
    out.append("]");
    proof {
        match fields {
            Fields::NoParams(v) => {
                assert(out@ =~= no_params_fields_text(crate::jsontext::strs_view(v@)));
            },
            Fields::Params(v) => {
                assert(out@ =~= params_fields_text(param_fields_view(v@)));
            },
        }
    }
    out
}

/// `s` cut into contiguous runs of `k` elements, the last run holding
/// whatever remains; meaningful for `k >= 1`.
pub open spec fn chunks_of(s: Seq<Seq<char>>, k: int) -> Seq<Seq<Seq<char>>>
    decreases s.len(),
    when k >= 1
{
    if s.len() == 0 {
        Seq::empty()
    } else if s.len() <= k {
        seq![s]
    } else {
        seq![s.subrange(0, k)] + chunks_of(s.subrange(k, s.len() as int), k)
    }
}

/// The runs of `chunks_of` partition the original sequence: laid end to
/// end they give it back exactly, and each run holds between one and
/// `k` elements.
pub proof fn lemma_chunks_cover(s: Seq<Seq<char>>, k: int)
    requires
        k >= 1,
    ensures
        chunks_of(s, k).flatten() == s,
        forall|i: int|
            0 <= i < chunks_of(s, k).len() ==> 1 <= (#[trigger] chunks_of(s, k)[i].len()) <= k,
    decreases s.len(),
{
    if s.len() == 0 {
        assert(chunks_of(s, k).flatten() =~= s);
    } else if s.len() <= k {
        chunks_of(s, k).lemma_flatten_one_element();
        assert(chunks_of(s, k).flatten() =~= s);
    } else {
        let head = s.subrange(0, k);
        let rest = s.subrange(k, s.len() as int);
        lemma_chunks_cover(rest, k);
        let cs = chunks_of(s, k);
        assert(cs == seq![head] + chunks_of(rest, k));
        assert(cs.first() == head);
        assert(cs.drop_first() =~= chunks_of(rest, k));
        assert(cs.flatten() == head + chunks_of(rest, k).flatten());
        assert(head + rest =~= s);
        assert forall|i: int| 0 <= i < cs.len() implies 1 <= (#[trigger] cs[i].len()) <= k by {
            if i > 0 {
                assert(cs[i] == chunks_of(rest, k)[i - 1]);
            }
        }
    }
}

/// The abstract values of a list of identifier groups.
pub open spec fn groups_view(g: Seq<Vec<String>>) -> Seq<Seq<Seq<char>>> {
    g.map_values(|v: Vec<String>| crate::jsontext::strs_view(v@))
}

/// Cuts a list of identifiers into contiguous groups of at most `k`,
/// in order and without gaps, as the service's per-request identifier
/// limit demands.
pub fn chunk_identifiers(items: &Vec<String>, k: usize) -> (r: Vec<Vec<String>>)
    requires
        k >= 1,
    ensures
        groups_view(r@) == chunks_of(crate::jsontext::strs_view(items@), k as int),
{
    let n = items.len();
    let ghost full = crate::jsontext::strs_view(items@);
    let mut r: Vec<Vec<String>> = Vec::new();
    let mut start: usize = 0;
    proof {
        assert(full.subrange(0, n as int) =~= full);
        assert(groups_view(r@) =~= Seq::<Seq<Seq<char>>>::empty());
        assert(groups_view(r@) + chunks_of(full, k as int) =~= chunks_of(full, k as int));
    }
    while start < n
        invariant
            n == items@.len(),
            full == crate::jsontext::strs_view(items@),
            start <= n,
            k >= 1,
            chunks_of(full, k as int) == groups_view(r@) + chunks_of(
                full.subrange(start as int, n as int),
                k as int,
            ),
        decreases n - start,
    {
        let end = if n - start < k {
            n
        } else {
            start + k
        };
        let mut group: Vec<String> = Vec::new();
        let mut i = start;
        while i < end
            invariant
                n == items@.len(),
                full == crate::jsontext::strs_view(items@),
                start <= i <= end <= n,
                crate::jsontext::strs_view(group@) =~= full.subrange(start as int, i as int),
            decreases end - i,
        {
            let ghost pre = group@;
            group.push(items[i].clone());
            proof {
                assert(crate::jsontext::strs_view(group@) =~= crate::jsontext::strs_view(
                    pre,
                ).push(items@[i as int]@));
                assert(full.subrange(start as int, i + 1) =~= full.subrange(
                    start as int,
                    i as int,
                ).push(full[i as int]));
            }
            i = i + 1;
        }
        r.push(group);
        proof {
            let suffix = full.subrange(start as int, n as int);
            let ghost gv = crate::jsontext::strs_view(group@);
            assert(gv =~= suffix.subrange(0, (end - start) as int));
            let rold = groups_view(r@.drop_last());
            assert(groups_view(r@) =~= rold.push(gv));
            if end == n {
                assert(suffix.len() <= k as int);
                assert(chunks_of(suffix, k as int) == seq![suffix]);
                assert(gv =~= suffix);
                assert(groups_view(r@) =~= rold + seq![suffix]);
                assert(chunks_of(full.subrange(end as int, n as int), k as int) =~= Seq::empty());
                assert(groups_view(r@) + chunks_of(full.subrange(end as int, n as int), k as int)
                    =~= rold + chunks_of(suffix, k as int));
            } else {
                assert(suffix.len() > k as int);
                assert(chunks_of(suffix, k as int) == seq![suffix.subrange(0, k as int)]
                    + chunks_of(suffix.subrange(k as int, suffix.len() as int), k as int));
                assert(gv =~= suffix.subrange(0, k as int));
                assert(suffix.subrange(k as int, suffix.len() as int) =~= full.subrange(
                    end as int,
                    n as int,
                ));
                assert(groups_view(r@) + chunks_of(full.subrange(end as int, n as int), k as int)
                    =~= rold + chunks_of(suffix, k as int));
            }
        }
        start = end;
    }
    proof {
        assert(full.subrange(n as int, n as int) =~= Seq::empty());
        assert(chunks_of(full.subrange(n as int, n as int), k as int) =~= Seq::empty());
        assert(groups_view(r@) =~= groups_view(r@) + Seq::<Seq<Seq<char>>>::empty());
    }
    r
}

} // verus!
