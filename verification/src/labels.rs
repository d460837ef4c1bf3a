//! Label values of the per-route latency histogram.

use vstd::prelude::*;

verus! {

/// The character of a decimal digit `d` (`0 <= d < 10`).
pub open spec fn digit_char(d: int) -> char {
    if d == 0 {
        '0'
    } else if d == 1 {
        '1'
    } else if d == 2 {
        '2'
    } else if d == 3 {
        '3'
    } else if d == 4 {
        '4'
    } else if d == 5 {
        '5'
    } else if d == 6 {
        '6'
    } else if d == 7 {
        '7'
    } else if d == 8 {
        '8'
    } else {
        '9'
    }
}

/// Whether a character is a decimal digit, `'0'` to `'9'`.
pub open spec fn is_digit(c: char) -> bool {
    48 <= (c as int) && (c as int) <= 57
}

/// The value of a decimal digit character: its distance from `'0'`.
pub open spec fn digit_value(c: char) -> int {
    (c as int) - 48
}

/// A canonical decimal numeral: at least one digit, only digits, and no leading
/// zero unless the numeral is `"0"` itself.
pub open spec fn canonical_numeral(s: Seq<char>) -> bool {
    &&& s.len() >= 1
    &&& forall|i: int| 0 <= i < s.len() ==> is_digit(#[trigger] s[i])
    &&& (s[0] == '0' ==> s.len() == 1)
}

/// The decimal rendering of `n`: most significant digit first, no leading zeros,
/// `"0"` for zero. This is how an HTTP status code is written as a label value.
pub open spec fn decimal(n: nat) -> Seq<char>
    decreases n,
{
    if n < 10 {
        seq![digit_char(n as int)]
    } else {
        decimal(n / 10).push(digit_char((n % 10) as int))
    }
}

/// The number that a string of decimal digits denotes.
pub open spec fn decimal_value(s: Seq<char>) -> int
    decreases s.len(),
{
    if s.len() == 0 {
        0
    } else {
        decimal_value(s.drop_last()) * 10 + digit_value(s.last())
    }
}

/// Reading back the decimal rendering of a number gives the number.
pub proof fn lemma_decimal_round_trip(n: nat)
    ensures
        decimal_value(decimal(n)) == n,
    decreases n,
{
    if n >= 10 {
        let d = (n % 10) as int;
        lemma_decimal_round_trip(n / 10);
        assert(decimal(n).drop_last() =~= decimal(n / 10));
        assert(decimal(n).last() == digit_char(d));
        assert(digit_value(digit_char(d)) == d);
        assert((n / 10) * 10 + n % 10 == n) by (nonlinear_arith);
    } else {
        assert(decimal(n).drop_last() =~= Seq::<char>::empty());
        assert(decimal_value(Seq::<char>::empty()) == 0);
        assert(digit_value(digit_char(n as int)) == n);
    }
}

proof fn lemma_digit_char(d: int)
    requires
        0 <= d < 10,
    ensures
        is_digit(digit_char(d)),
        digit_value(digit_char(d)) == d,
        (digit_char(d) == '0') <==> d == 0,
{
}

/// The decimal rendering of `n` is a canonical numeral: only digits, and no leading
/// zero unless it is `"0"`.
pub proof fn lemma_decimal_canonical(n: nat)
    ensures
        canonical_numeral(decimal(n)),
        decimal(n)[0] == '0' <==> n == 0,
    decreases n,
{
    if n >= 10 {
        lemma_decimal_canonical(n / 10);
        lemma_digit_char((n % 10) as int);
        let s = decimal(n);
        assert(s =~= decimal(n / 10).push(digit_char((n % 10) as int)));
        assert forall|i: int| 0 <= i < s.len() implies is_digit(#[trigger] s[i]) by {
            if i < s.len() - 1 {
                assert(s[i] == decimal(n / 10)[i]);
            }
        }
        assert(s[0] == decimal(n / 10)[0]);
    } else {
        lemma_digit_char(n as int);
    }
}

proof fn lemma_leading_digit_nonzero_value(s: Seq<char>)
    requires
        s.len() >= 1,
        forall|i: int| 0 <= i < s.len() ==> is_digit(#[trigger] s[i]),
        s[0] != '0',
    ensures
        decimal_value(s) >= 1,
    decreases s.len(),
{
    assert(decimal_value(s) == decimal_value(s.drop_last()) * 10 + digit_value(s.last()));
    assert(is_digit(s[s.len() - 1]));
    if s.len() == 1 {
        assert(s.drop_last() =~= Seq::<char>::empty());
        assert(decimal_value(Seq::<char>::empty()) == 0);
        assert(is_digit(s[0]));
        assert((s[0] as int) != ('0' as int));
    } else {
        let p = s.drop_last();
        assert forall|i: int| 0 <= i < p.len() implies is_digit(#[trigger] p[i]) by {
            assert(p[i] == s[i]);
        }
        assert(p[0] == s[0]);
        lemma_leading_digit_nonzero_value(p);
        let v = decimal_value(p);
        assert(v * 10 >= 10) by (nonlinear_arith)
            requires
                v >= 1,
        ;
    }
}

/// A canonical numeral is the only one of its value: two canonical numerals that
/// denote the same number are the same string. With the round trip, the status
/// label of a code is the shortest decimal string that denotes it.
pub proof fn lemma_canonical_numeral_unique(s: Seq<char>, t: Seq<char>)
    requires
        canonical_numeral(s),
        canonical_numeral(t),
        decimal_value(s) == decimal_value(t),
    ensures
        s == t,
    decreases s.len(),
{
    assert(is_digit(s[s.len() - 1]));
    assert(is_digit(t[t.len() - 1]));
    let ps = s.drop_last();
    let pt = t.drop_last();
    let ds = digit_value(s.last());
    let dt = digit_value(t.last());
    assert(decimal_value(s) == decimal_value(ps) * 10 + ds);
    assert(decimal_value(t) == decimal_value(pt) * 10 + dt);
    assert(decimal_value(Seq::<char>::empty()) == 0);
    if s.len() > 1 {
        assert forall|i: int| 0 <= i < ps.len() implies is_digit(#[trigger] ps[i]) by {
            assert(ps[i] == s[i]);
        }
        assert(ps[0] == s[0]);
        lemma_leading_digit_nonzero_value(ps);
    }
    if t.len() > 1 {
        assert forall|i: int| 0 <= i < pt.len() implies is_digit(#[trigger] pt[i]) by {
            assert(pt[i] == t[i]);
        }
        assert(pt[0] == t[0]);
        lemma_leading_digit_nonzero_value(pt);
    }
    if s.len() == 1 && t.len() == 1 {
        assert(ps =~= Seq::<char>::empty());
        assert(pt =~= Seq::<char>::empty());
        assert(s[0] as int == t[0] as int);
        assert(s =~= t);
    } else if s.len() == 1 {
        assert(ps =~= Seq::<char>::empty());
        let vt = decimal_value(pt);
        assert(vt * 10 >= 10) by (nonlinear_arith)
            requires
                vt >= 1,
        ;
    } else if t.len() == 1 {
        assert(pt =~= Seq::<char>::empty());
        let vs = decimal_value(ps);
        assert(vs * 10 >= 10) by (nonlinear_arith)
            requires
                vs >= 1,
        ;
    } else {
        let vs = decimal_value(ps);
        let vt = decimal_value(pt);
        assert(vs == vt && ds == dt) by (nonlinear_arith)
            requires
                vs * 10 + ds == vt * 10 + dt,
                0 <= ds < 10,
                0 <= dt < 10,
        ;
        lemma_canonical_numeral_unique(ps, pt);
        assert(s.last() as int == t.last() as int);
        assert(s =~= ps.push(s.last()));
        assert(t =~= pt.push(t.last()));
    }
}

/// Distinct status codes get distinct status labels, so responses with
/// different statuses never share a latency series.
pub proof fn lemma_status_labels_distinct(a: u16, b: u16)
    requires
        a != b,
    ensures
        decimal(a as nat) != decimal(b as nat),
{
    lemma_decimal_round_trip(a as nat);
    lemma_decimal_round_trip(b as nat);
}

fn digit_str(d: u16) -> (s: &'static str)
    requires
        d < 10,
    ensures
        s@ == seq![digit_char(d as int)],
{
    if d == 0 {
        proof { reveal_strlit("0"); }
        "0"
    } else if d == 1 {
        proof { reveal_strlit("1"); }
        "1"
    } else if d == 2 {
        proof { reveal_strlit("2"); }
        "2"
    } else if d == 3 {
        proof { reveal_strlit("3"); }
        "3"
    } else if d == 4 {
        proof { reveal_strlit("4"); }
        "4"
    } else if d == 5 {
        proof { reveal_strlit("5"); }
        "5"
    } else if d == 6 {
        proof { reveal_strlit("6"); }
        "6"
    } else if d == 7 {
        proof { reveal_strlit("7"); }
        "7"
    } else if d == 8 {
        proof { reveal_strlit("8"); }
        "8"
    } else {
        proof { reveal_strlit("9"); }
        "9"
    }
}

fn append_decimal(out: &mut String, n: u16)
    ensures
        final(out)@ == old(out)@ + decimal(n as nat),
    decreases n,
{
    if n >= 10 {
        append_decimal(out, n / 10);
    }
    out.append(digit_str(n % 10));
    assert(out@ =~= old(out)@ + decimal(n as nat));
}

/// The label value of an HTTP status code: its decimal rendering (`200`, `404`).
pub fn status_label(status: u16) -> (label: String)
    ensures
        label@ == decimal(status as nat),
        canonical_numeral(label@),
        decimal_value(label@) == status,
{
    let mut out = String::new();
    append_decimal(&mut out, status);
    proof {
        assert(out@ =~= decimal(status as nat));
        lemma_decimal_canonical(status as nat);
        lemma_decimal_round_trip(status as nat);
    }
    out
}

/// The route label of a request: the matched route pattern (such as
/// `/api/plans/:id`) when the router matched one, otherwise the raw URI path.
pub open spec fn route_of(matched_path: Option<Seq<char>>, uri_path: Seq<char>) -> Seq<char> {
    match matched_path {
        Some(pattern) => pattern,
        None => uri_path,
    }
}

/// The route label is the matched pattern itself, whole, when the router matched
/// one, and the URI path itself otherwise.
pub proof fn lemma_route_label_is_pattern_or_path(matched_path: Option<Seq<char>>, uri_path: Seq<char>)
    ensures
        matched_path matches Some(pattern) ==> route_of(matched_path, uri_path) == pattern,
        matched_path is None ==> route_of(matched_path, uri_path) == uri_path,
{
}

/// Requests that matched the same route pattern share one route label,
/// whatever their concrete paths: the label set stays as small as the route table.
pub proof fn lemma_route_label_ignores_concrete_path(pattern: Seq<char>, uri_a: Seq<char>, uri_b: Seq<char>)
    ensures
        route_of(Some(pattern), uri_a) == route_of(Some(pattern), uri_b),
{
}

/// Picks the route label of a request from its matched route pattern, if any,
/// and its URI path.
pub fn route_label(matched_path: Option<&str>, uri_path: &str) -> (label: String)
    ensures
        matched_path matches Some(pattern) ==> label@ == pattern@,
        matched_path is None ==> label@ == uri_path@,
        label@ == route_of(
            match matched_path {
                Some(p) => Some(p@),
                None => None,
            },
            uri_path@,
        ),
{
    match matched_path {
        Some(pattern) => pattern.to_owned(),
        None => uri_path.to_owned(),
    }
}

/// The label names of the latency histogram, in order.
pub open spec fn latency_label_names_spec() -> Seq<Seq<char>> {
    seq!["method"@, "path"@, "status"@]
}

/// The label values under which one request is recorded, in the order of
/// [`latency_label_names_spec`]: its method, its route label, its status label.
pub open spec fn latency_label_values_spec(method: Seq<char>, route: Seq<char>, status: u16) -> Seq<
    Seq<char>,
> {
    seq![method, route, decimal(status as nat)]
}

/// The views of a list of strings.
pub open spec fn string_views(v: Seq<String>) -> Seq<Seq<char>> {
    v.map_values(|s: String| s@)
}

/// Every request is recorded with exactly one value per histogram label, so the
/// histogram never meets a label set of the wrong cardinality.
pub proof fn lemma_label_values_match_names(method: Seq<char>, route: Seq<char>, status: u16)
    ensures
        latency_label_values_spec(method, route, status).len() == latency_label_names_spec().len(),
{
}

/// For every status, the label values are the method first, the route label
/// second, and the canonical decimal numeral of the status third.
pub proof fn lemma_label_values_positions(method: Seq<char>, route: Seq<char>, status: u16)
    ensures
        latency_label_values_spec(method, route, status).len() == 3,
        latency_label_values_spec(method, route, status)[0] == method,
        latency_label_values_spec(method, route, status)[1] == route,
        canonical_numeral(latency_label_values_spec(method, route, status)[2]),
        decimal_value(latency_label_values_spec(method, route, status)[2]) == status,
{
    lemma_decimal_canonical(status as nat);
    lemma_decimal_round_trip(status as nat);
}

/// The label names of the latency histogram: `method`, `path`, `status`.
pub fn latency_label_names() -> (names: Vec<String>)
    ensures
        string_views(names@) == latency_label_names_spec(),
{
    let mut names: Vec<String> = Vec::new();
    names.push("method".to_owned());
    names.push("path".to_owned());
    names.push("status".to_owned());
    proof {
        assert(string_views(names@) =~= latency_label_names_spec());
    }
    names
}

/// The label values of one request: `[method, route, status]`.
pub fn latency_label_values(method: &str, route: &str, status: u16) -> (values: Vec<String>)
    ensures
        string_views(values@) == latency_label_values_spec(method@, route@, status),
        values@.len() == 3,
        values@[0]@ == method@,
        values@[1]@ == route@,
        canonical_numeral(values@[2]@),
        decimal_value(values@[2]@) == status,
{
    let mut values: Vec<String> = Vec::new();
    values.push(method.to_owned());
    values.push(route.to_owned());
    values.push(status_label(status));
    proof {
        assert(string_views(values@) =~= latency_label_values_spec(method@, route@, status));
    }
    values
}

} // verus!
