use vstd::prelude::*;

verus! {

/// The JSON string literal (quotes and escapes included) that encodes
/// the character sequence `s`.
pub uninterp spec fn json_quoted(s: Seq<char>) -> Seq<char>;

/// Relies on serde_json::to_string for &str: renders a JSON string
/// literal. On a string value it cannot fail (failure is reserved for
/// maps with non-string keys and for erring Serialize impls).
#[verifier::external_body]
pub fn json_quote(s: &str) -> (r: String)
    ensures
        r@ == json_quoted(s@),
{
    match serde_json::to_string(s) {
        Ok(r) => r,
        Err(_) => String::new(),
    }
}

/// The abstract values of a list of strings.
pub open spec fn strs_view(s: Seq<String>) -> Seq<Seq<char>> {
    s.map_values(|x: String| x@)
}

/// JSON string literals for each element, joined with commas.
pub open spec fn quoted_join(s: Seq<Seq<char>>) -> Seq<char>
    decreases s.len(),
{
    if s.len() == 0 {
        Seq::empty()
    } else if s.len() == 1 {
        json_quoted(s[0])
    } else {
        quoted_join(s.drop_last()) + ","@ + json_quoted(s.last())
    }
}

/// The text of a JSON array of strings.
pub open spec fn string_array_text(s: Seq<Seq<char>>) -> Seq<char> {
    "["@ + quoted_join(s) + "]"@
}

/// Renders a JSON array holding the given strings, in order.
pub fn json_string_array(items: &Vec<String>) -> (r: String)
    ensures
        r@ == string_array_text(strs_view(items@)),
{
    let mut out = String::from_str("[");
    let n = items.len();
    let mut i: usize = 0;
    while i < n
        invariant
            n == items@.len(),
            i <= n,
            out@ == "["@ + quoted_join(strs_view(items@.subrange(0, i as int))),
        decreases n - i,
    {
        if i > 0 {
            out.append(",");
        }
        let q = json_quote(items[i].as_str());
        out.append(q.as_str());
        proof {
            let pre = strs_view(items@.subrange(0, i as int));
            let cur = strs_view(items@.subrange(0, i + 1));
            assert(cur.drop_last() =~= pre);
            assert(cur.last() == items@[i as int]@);
            if i == 0 {
                assert(quoted_join(cur) == json_quoted(items@[i as int]@));
                assert(quoted_join(pre) == Seq::<char>::empty());
                assert("["@ + quoted_join(pre) + q@ =~= "["@ + quoted_join(cur));
            } else {
                assert(quoted_join(cur) == quoted_join(pre) + ","@ + json_quoted(
                    items@[i as int]@,
                ));
                assert("["@ + quoted_join(pre) + ","@ + q@ =~= "["@ + quoted_join(cur));
            }
        }
        i = i + 1;
    }
    out.append("]");
    proof {
        assert(items@.subrange(0, n as int) == items@);
        assert("["@ + quoted_join(strs_view(items@)) + "]"@ =~= ("["@ + quoted_join(
            strs_view(items@),
        )) + "]"@);
    }
    out
}

/// Texts joined with commas, as the members of a JSON array.
pub open spec fn comma_join(items: Seq<Seq<char>>) -> Seq<char>
    decreases items.len(),
{
    if items.len() == 0 {
        Seq::empty()
    } else if items.len() == 1 {
        items[0]
    } else {
        comma_join(items.drop_last()) + ","@ + items.last()
    }
}

/// The abstract values of a list of string pairs.
pub open spec fn pairs_view(s: Seq<(String, String)>) -> Seq<(Seq<char>, Seq<char>)> {
    s.map_values(|p: (String, String)| (p.0@, p.1@))
}

/// `"key":"value"` members for each pair, joined with commas.
pub open spec fn member_join(s: Seq<(Seq<char>, Seq<char>)>) -> Seq<char>
    decreases s.len(),
{
    if s.len() == 0 {
        Seq::empty()
    } else if s.len() == 1 {
        json_quoted(s[0].0) + ":"@ + json_quoted(s[0].1)
    } else {
        member_join(s.drop_last()) + ","@ + json_quoted(s.last().0) + ":"@ + json_quoted(
            s.last().1,
        )
    }
}

/// The text of a JSON object with string-valued members, in pair order.
pub open spec fn string_object_text(s: Seq<(Seq<char>, Seq<char>)>) -> Seq<char> {
    "{"@ + member_join(s) + "}"@
}

/// Renders a JSON object holding the given members, in order.
pub fn json_string_object(pairs: &Vec<(String, String)>) -> (r: String)
    ensures
        r@ == string_object_text(pairs_view(pairs@)),
{
    let mut out = String::from_str("{");
    let n = pairs.len();
    let mut i: usize = 0;
    while i < n
        invariant
            n == pairs@.len(),
            i <= n,
            out@ == "{"@ + member_join(pairs_view(pairs@.subrange(0, i as int))),
        decreases n - i,
    {
        if i > 0 {
            out.append(",");
        }
        let qk = json_quote(pairs[i].0.as_str());
        out.append(qk.as_str());
        out.append(":");
        let qv = json_quote(pairs[i].1.as_str());
        out.append(qv.as_str());
        proof {
            let pre = pairs_view(pairs@.subrange(0, i as int));
            let cur = pairs_view(pairs@.subrange(0, i + 1));
            assert(cur.drop_last() =~= pre);
            assert(cur.last() == (pairs@[i as int].0@, pairs@[i as int].1@));
            if i == 0 {
                assert(member_join(pre) == Seq::<char>::empty());
                assert("{"@ + member_join(pre) + qk@ + ":"@ + qv@ =~= "{"@ + member_join(cur));
            } else {
                assert("{"@ + member_join(pre) + ","@ + qk@ + ":"@ + qv@ =~= "{"@ + member_join(
                    cur,
                ));
            }
        }
        i = i + 1;
    }
    out.append("}");
    proof {
        assert(pairs@.subrange(0, n as int) == pairs@);
        assert("{"@ + member_join(pairs_view(pairs@)) + "}"@ =~= ("{"@ + member_join(
            pairs_view(pairs@),
        )) + "}"@);
    }
    out
}

} // verus!
