//! The inline text formatter: code spans, emphasis, anchors and the
//! number-range polish pass, scanning for the first trigger character and
//! recursing on the remainder.
use vstd::prelude::*;
use vstd::string::*;

use crate::parser::{LineType, MdError};
use crate::text::{
    alnum_pred, alnum_prefix, char_is, digit_pred, digit_prefix, eq_str, find_char, find_ix,
    find_sub, is_ws, lemma_find_ix, lemma_find_ix_none, lemma_find_ix_some, lemma_find_sub,
    lemma_pred_prefix_bounds, lemma_ws_prefix_bounds, occurs_at, pred_prefix_len, push_char,
    skip_ws, spec_find_sub, spec_ws_prefix_len, starts_with_at,
};

verus! {

/// Leftmost-first replacement of every occurrence of `p` by `r`, without
/// rescanning replaced text.
pub open spec fn spec_replace_all(s: Seq<char>, p: Seq<char>, r: Seq<char>) -> Seq<char>
    decreases s.len(),
{
    if p.len() == 0 || p.len() > s.len() {
        s
    } else if s.take(p.len() as int) == p {
        r + spec_replace_all(s.skip(p.len() as int), p, r)
    } else {
        s.take(1) + spec_replace_all(s.skip(1), p, r)
    }
}

fn replace_all(s: &str, p: &str, r: &str) -> (out: String)
    requires
        p@.len() > 0,
    ensures
        out@ == spec_replace_all(s@, p@, r@),
{
    let slen = s.unicode_len();
    let plen = p.unicode_len();
    let mut out = String::new();
    let mut i: usize = 0;
    proof {
        assert(s@.skip(0) =~= s@);
    }
    while i < slen
        invariant
            i <= slen,
            slen == s@.len(),
            plen == p@.len(),
            plen > 0,
            out@ + spec_replace_all(s@.skip(i as int), p@, r@) == spec_replace_all(s@, p@, r@),
        decreases slen - i,
    {
        let ghost t = s@.skip(i as int);
        if starts_with_at(s, i, p) {
            proof {
                assert(t.take(plen as int) =~= s@.subrange(i as int, i + plen));
                assert(t.skip(plen as int) =~= s@.skip(i + plen));
            }
            out.append(r);
            i = i + plen;
        } else {
            proof {
                if plen <= t.len() {
                    if t.take(plen as int) == p@ {
                        assert(s@.subrange(i as int, i + plen) =~= t.take(plen as int));
                        assert(occurs_at(s@, p@, i as int));
                    }
                }
                assert(t.skip(1) =~= s@.skip(i + 1));
            }
            let c = s.get_char(i);
            push_char(&mut out, c);
            proof {
                assert(out@ =~= (out@.drop_last() + t.take(1)));
            }
            i = i + 1;
        }
    }
    proof {
        assert(s@.skip(slen as int) =~= Seq::<char>::empty());
    }
    out
}

/// The escaping applied to code handed to the host template format: angle
/// brackets, backtick and braces become escapes, and two literal token
/// sequences the downstream bundler would resolve are defused.
pub open spec fn spec_escape_code(s: Seq<char>) -> Seq<char> {
    spec_replace_all(
        spec_replace_all(
            spec_replace_all(
                spec_replace_all(
                    spec_replace_all(
                        spec_replace_all(
                            spec_replace_all(s, "<"@, "\\u003C"@),
                            ">"@,
                            "\\u003E"@,
                        ),
                        "`"@,
                        "\\u0060"@,
                    ),
                    "{"@,
                    "\\u007B"@,
                ),
                "}"@,
                "\\u007D"@,
            ),
            "import."@,
            "import.."@,
        ),
        "process.env"@,
        "process..env"@,
    )
}

/// Escapes a code line for embedding in the generated markup.
pub fn escape_code(line: &str) -> (r: String)
    ensures
        r@ == spec_escape_code(line@),
{
    proof {
        reveal_strlit("<");
        reveal_strlit(">");
        reveal_strlit("`");
        reveal_strlit("{");
        reveal_strlit("}");
        reveal_strlit("import.");
        reveal_strlit("process.env");
    }
    let a = replace_all(line, "<", "\\u003C");
    let b = replace_all(a.as_str(), ">", "\\u003E");
    let c = replace_all(b.as_str(), "`", "\\u0060");
    let d = replace_all(c.as_str(), "{", "\\u007B");
    let e = replace_all(d.as_str(), "}", "\\u007D");
    let f = replace_all(e.as_str(), "import.", "import..");
    replace_all(f.as_str(), "process.env", "process..env")
}

/// Outcome of trying one inline span form at the front of a scanned tail.
pub enum SpanScan {
    /// The form does not occur; the caller passes the line through.
    Miss,
    /// The span was recognized: its generated markup, and the unscanned rest.
    Hit { markup: Seq<char>, rest: Seq<char> },
}

/// A code span: text up to a backtick, the span between two backticks, and
/// the rest; the span content is escaped and wrapped in an inline-code tag.
pub open spec fn spec_code_span(t: Seq<char>) -> SpanScan {
    match find_ix(t, char_is('`')) {
        None => SpanScan::Miss,
        Some(k) => {
            let rest1 = t.skip(k + 1);
            match find_ix(rest1, char_is('`')) {
                None => SpanScan::Miss,
                Some(m) => SpanScan::Hit {
                    markup: t.take(k) + "<InlineCodeFragment code={`"@ + spec_escape_code(
                        rest1.take(m),
                    ) + "`} />"@,
                    rest: rest1.skip(m + 1),
                },
            }
        },
    }
}

pub proof fn lemma_code_span_lens(t: Seq<char>)
    ensures
        match spec_code_span(t) {
            SpanScan::Hit { markup, rest } => rest.len() + 2 <= t.len(),
            SpanScan::Miss => true,
        },
{
    lemma_find_ix(t, char_is('`'));
    match find_ix(t, char_is('`')) {
        Some(k) => {
            lemma_find_ix(t.skip(k + 1), char_is('`'));
        },
        None => {},
    }
}

/// Strong emphasis between two `**` delimiters; the delimited content is
/// itself tried as a code span so the two forms compose.
pub open spec fn spec_strong(t: Seq<char>) -> SpanScan {
    match spec_find_sub(t, "**"@) {
        None => SpanScan::Miss,
        Some(k) => {
            let rest1 = t.skip(k + 2);
            match spec_find_sub(rest1, "**"@) {
                None => SpanScan::Miss,
                Some(m) => {
                    let bold = rest1.take(m);
                    let content = match spec_code_span(bold) {
                        SpanScan::Hit { markup, rest } => markup,
                        SpanScan::Miss => bold,
                    };
                    SpanScan::Hit {
                        markup: t.take(k) + "<strong>"@ + content + "</strong>"@,
                        rest: rest1.skip(m + 2),
                    }
                },
            }
        },
    }
}

/// Weak emphasis between two `*` delimiters.
pub open spec fn spec_em(t: Seq<char>) -> SpanScan {
    match spec_find_sub(t, "*"@) {
        None => SpanScan::Miss,
        Some(k) => {
            let rest1 = t.skip(k + 1);
            match spec_find_sub(rest1, "*"@) {
                None => SpanScan::Miss,
                Some(m) => SpanScan::Hit {
                    markup: t.take(k) + "<em>"@ + rest1.take(m) + "</em>"@,
                    rest: rest1.skip(m + 1),
                },
            }
        },
    }
}

pub proof fn lemma_strong_lens(t: Seq<char>)
    ensures
        match spec_strong(t) {
            SpanScan::Hit { markup, rest } => rest.len() + 4 <= t.len(),
            SpanScan::Miss => true,
        },
{
    lemma_find_sub(t, "**"@);
    match spec_find_sub(t, "**"@) {
        Some(k) => {
            lemma_find_sub(t.skip(k + 2), "**"@);
            proof_strlit_len2();
        },
        None => {},
    }
}

pub proof fn lemma_em_lens(t: Seq<char>)
    ensures
        match spec_em(t) {
            SpanScan::Hit { markup, rest } => rest.len() + 2 <= t.len(),
            SpanScan::Miss => true,
        },
{
    lemma_find_sub(t, "*"@);
    match spec_find_sub(t, "*"@) {
        Some(k) => {
            lemma_find_sub(t.skip(k + 1), "*"@);
            proof_strlit_len1();
        },
        None => {},
    }
}

proof fn proof_strlit_len1()
    ensures
        "*"@.len() == 1,
{
    reveal_strlit("*");
}

proof fn proof_strlit_len2()
    ensures
        "**"@.len() == 2,
{
    reveal_strlit("**");
}

/// Splits `line` at the first occurrence of `delimiter`, consuming it.
pub fn parse_up_to_inline_wrap_segment(line: &str, delimiter: &str) -> (r: Option<
    (String, String),
>)
    requires
        delimiter@.len() > 0,
    ensures
        match spec_find_sub(line@, delimiter@) {
            Some(k) => r matches Some((before, after)) && before@ == line@.take(k) && after@
                == line@.skip(k + delimiter@.len()),
            None => r is None,
        },
{
    match find_sub(line, delimiter) {
        Some(k) => {
            let len = line.unicode_len();
            let dlen = delimiter.unicode_len();
            proof {
                lemma_find_sub(line@, delimiter@);
            }
            let before = line.substring_char(0, k).to_owned();
            let after = line.substring_char(k + dlen, len).to_owned();
            Some((before, after))
        },
        None => None,
    }
}

/// Splits `line` at the first occurrence of `delimiter`, consuming it.
pub fn parse_inline_wrap_segment(line: &str, delimiter: &str) -> (r: Option<(String, String)>)
    requires
        delimiter@.len() > 0,
    ensures
        match spec_find_sub(line@, delimiter@) {
            Some(k) => r matches Some((before, after)) && before@ == line@.take(k) && after@
                == line@.skip(k + delimiter@.len()),
            None => r is None,
        },
{
    parse_up_to_inline_wrap_segment(line, delimiter)
}

/// Splits a line around a code span: text before the first backtick, the
/// span between the backticks, and the rest.
pub fn segment_code_span_line(line: &str) -> (r: Option<(String, String, String)>)
    ensures
        match find_ix(line@, char_is('`')) {
            None => r is None,
            Some(k) => match find_ix(line@.skip(k + 1), char_is('`')) {
                None => r is None,
                Some(m) => r matches Some((initial, code, fin)) && initial@ == line@.take(k)
                    && code@ == line@.skip(k + 1).take(m) && fin@ == line@.skip(k + 1).skip(
                    m + 1,
                ),
            },
        },
{
    let len = line.unicode_len();
    match find_char(line, '`') {
        None => None,
        Some(k) => {
            proof {
                lemma_find_ix(line@, char_is('`'));
            }
            let rest1 = line.substring_char(k + 1, len);
            match find_char(rest1, '`') {
                None => None,
                Some(m) => {
                    proof {
                        lemma_find_ix(rest1@, char_is('`'));
                    }
                    let initial = line.substring_char(0, k).to_owned();
                    let code = rest1.substring_char(0, m).to_owned();
                    let fin = rest1.substring_char(m + 1, len - (k + 1)).to_owned();
                    Some((initial, code, fin))
                },
            }
        },
    }
}

/// Splits a line around the first `*`-delimited emphasis span.
pub fn segment_emphasis_line(line: &str) -> (r: Option<(String, String, String)>)
    ensures
        match spec_find_sub(line@, "*"@) {
            None => r is None,
            Some(k) => match spec_find_sub(line@.skip(k + 1), "*"@) {
                None => r is None,
                Some(m) => r matches Some((initial, bold, fin)) && initial@ == line@.take(k)
                    && bold@ == line@.skip(k + 1).take(m) && fin@ == line@.skip(k + 1).skip(m + 1),
            },
        },
{
    proof {
        proof_strlit_len1();
    }
    match parse_up_to_inline_wrap_segment(line, "*") {
        None => None,
        Some((initial, remainder)) => {
            match parse_inline_wrap_segment(remainder.as_str(), "*") {
                None => None,
                Some((bold, fin)) => Some((initial, bold, fin)),
            }
        },
    }
}

/// Splits a line around the first `**`-delimited strong-emphasis span.
pub fn segment_strong_emphasis_line(line: &str) -> (r: Option<(String, String, String)>)
    ensures
        match spec_find_sub(line@, "**"@) {
            None => r is None,
            Some(k) => match spec_find_sub(line@.skip(k + 2), "**"@) {
                None => r is None,
                Some(m) => r matches Some((initial, bold, fin)) && initial@ == line@.take(k)
                    && bold@ == line@.skip(k + 2).take(m) && fin@ == line@.skip(k + 2).skip(m + 2),
            },
        },
{
    proof {
        proof_strlit_len2();
    }
    match parse_up_to_inline_wrap_segment(line, "**") {
        None => None,
        Some((initial, remainder)) => {
            match parse_inline_wrap_segment(remainder.as_str(), "**") {
                None => None,
                Some((bold, fin)) => Some((initial, bold, fin)),
            }
        },
    }
}

/// Forms the inline-code markup for the first code span of `line`; returns
/// the markup through the span and the unconsumed rest.
pub fn form_code_span_line(line: &str) -> (r: Option<(String, String)>)
    ensures
        match spec_code_span(line@) {
            SpanScan::Miss => r is None,
            SpanScan::Hit { markup, rest } => r matches Some((m, f)) && m@ == markup && f@ == rest,
        },
{
    match segment_code_span_line(line) {
        None => None,
        Some((initial, code, fin)) => {
            let escaped = escape_code(code.as_str());
            let mut m = initial;
            m.append("<InlineCodeFragment code={`");
            m.append(escaped.as_str());
            m.append("`} />");
            Some((m, fin))
        },
    }
}

/// Forms the `<em>` markup for the first emphasis span of `line`.
pub fn form_emphasis_line(line: &str) -> (r: Option<(String, String)>)
    ensures
        match spec_em(line@) {
            SpanScan::Miss => r is None,
            SpanScan::Hit { markup, rest } => r matches Some((m, f)) && m@ == markup && f@ == rest,
        },
{
    match segment_emphasis_line(line) {
        None => None,
        Some((initial, bold, fin)) => {
            let mut m = initial;
            m.append("<em>");
            m.append(bold.as_str());
            m.append("</em>");
            Some((m, fin))
        },
    }
}

/// Forms the `<strong>` markup for the first strong-emphasis span of `line`;
/// the delimited content is itself tried as a code span.
pub fn form_strong_emphasis_line(line: &str) -> (r: Option<(String, String)>)
    ensures
        match spec_strong(line@) {
            SpanScan::Miss => r is None,
            SpanScan::Hit { markup, rest } => r matches Some((m, f)) && m@ == markup && f@ == rest,
        },
{
    match segment_strong_emphasis_line(line) {
        None => None,
        Some((initial, bold, fin)) => {
            let content = match form_code_span_line(bold.as_str()) {
                Some((code_markup, _)) => code_markup,
                None => bold,
            };
            let mut m = initial;
            m.append("<strong>");
            m.append(content.as_str());
            m.append("</strong>");
            Some((m, fin))
        },
    }
}

} // verus!

verus! {

/// One `key:value` client-directive attribute at the front of `a`, as the
/// templating dialect writes them, with the unconsumed rest.
pub open spec fn spec_attr_directive(a: Seq<char>) -> Option<((Seq<char>, Seq<char>), Seq<char>)> {
    let a1 = a.skip(spec_ws_prefix_len(a));
    let l1 = pred_prefix_len(a1, alnum_pred());
    if l1 >= 1 && l1 < a1.len() && a1[l1] == ':' {
        let a2 = a1.skip(l1 + 1);
        let l2 = pred_prefix_len(a2, alnum_pred());
        if l2 >= 1 {
            Some(((a1.take(l1), a2.take(l2)), a2.skip(l2)))
        } else {
            None
        }
    } else {
        None
    }
}

/// One `key="value"` or ``key={`value`}`` attribute at the front of `a`,
/// with the unconsumed rest.
pub open spec fn spec_attr_kv(a: Seq<char>) -> Option<((Seq<char>, Seq<char>), Seq<char>)> {
    let a1 = a.skip(spec_ws_prefix_len(a));
    match find_ix(a1, char_is('=')) {
        None => None,
        Some(k) => {
            let key = a1.take(k);
            let after = a1.skip(k);
            if after.len() >= "=\""@.len() && after.take("=\""@.len() as int) == "=\""@ {
                let v = after.skip("=\""@.len() as int);
                match find_ix(v, char_is('"')) {
                    None => None,
                    Some(q) => Some(((key, v.take(q)), v.skip(q + 1))),
                }
            } else if after.len() >= "={`"@.len() && after.take("={`"@.len() as int) == "={`"@ {
                let v = after.skip("={`"@.len() as int);
                match spec_find_sub(v, "`}"@) {
                    None => None,
                    Some(q) => Some(((key, v.take(q)), v.skip(q + "`}"@.len()))),
                }
            } else {
                None
            }
        },
    }
}

/// The next attribute at the front of `a`: a client directive if one fits,
/// else a quoted attribute.
pub open spec fn spec_attr_one(a: Seq<char>) -> Option<((Seq<char>, Seq<char>), Seq<char>)> {
    match spec_attr_directive(a) {
        Some(x) => Some(x),
        None => spec_attr_kv(a),
    }
}

pub proof fn lemma_attr_one_consumes(a: Seq<char>)
    ensures
        match spec_attr_one(a) {
            Some(((k, v), rest)) => rest.len() < a.len(),
            None => true,
        },
{
    reveal_strlit("=\"");
    reveal_strlit("={`");
    reveal_strlit("`}");
    lemma_ws_prefix_bounds(a);
    let a1 = a.skip(spec_ws_prefix_len(a));
    lemma_pred_prefix_bounds(a1, alnum_pred());
    let l1 = pred_prefix_len(a1, alnum_pred());
    if l1 >= 1 && l1 < a1.len() && a1[l1] == ':' {
        lemma_pred_prefix_bounds(a1.skip(l1 + 1), alnum_pred());
    }
    match find_ix(a1, char_is('=')) {
        Some(k) => {
            lemma_find_ix(a1, char_is('='));
            let after = a1.skip(k);
            if after.len() >= 2 && after.take(2) == "=\""@ {
                let v = after.skip(2);
                match find_ix(v, char_is('"')) {
                    Some(q) => {
                        lemma_find_ix(v, char_is('"'));
                    },
                    None => {},
                }
            } else if after.len() >= 3 && after.take(3) == "={`"@ {
                let v = after.skip(3);
                match spec_find_sub(v, "`}"@) {
                    Some(q) => {
                        lemma_find_sub(v, "`}"@);
                    },
                    None => {},
                }
            }
        },
        None => {},
    }
}

/// All attributes readable from the front of `a`, in order; parsing stops at
/// the first text that fits neither attribute form.
pub open spec fn spec_attrs(a: Seq<char>) -> Seq<(Seq<char>, Seq<char>)>
    decreases a.len(),
    via spec_attrs_decreases
{
    match spec_attr_one(a) {
        None => Seq::empty(),
        Some((kv, rest)) => seq![kv] + spec_attrs(rest),
    }
}

#[via_fn]
proof fn spec_attrs_decreases(a: Seq<char>) {
    lemma_attr_one_consumes(a);
}

/// The value of the last attribute named `k`, mirroring how repeated keys
/// overwrite earlier ones in a map built by insertion.
pub open spec fn attrs_lookup(ps: Seq<(Seq<char>, Seq<char>)>, k: Seq<char>) -> Option<Seq<char>>
    decreases ps.len(),
{
    if ps.len() == 0 {
        None
    } else if ps.last().0 == k {
        Some(ps.last().1)
    } else {
        attrs_lookup(ps.drop_last(), k)
    }
}

proof fn lemma_lookup_unmatched_tail(ps: Seq<(Seq<char>, Seq<char>)>, k: Seq<char>, i: int)
    requires
        0 <= i <= ps.len(),
        forall|j: int| i <= j < ps.len() ==> (#[trigger] ps[j]).0 != k,
    ensures
        attrs_lookup(ps, k) == attrs_lookup(ps.take(i), k),
    decreases ps.len() - i,
{
    if i < ps.len() {
        assert(ps.last().0 != k);
        lemma_lookup_unmatched_tail(ps.drop_last(), k, i);
        assert(ps.drop_last().take(i) =~= ps.take(i));
    } else {
        assert(ps.take(i) =~= ps);
    }
}

/// The view of parsed attribute pairs as pairs of character sequences.
pub open spec fn pairs_view(v: Seq<(String, String)>) -> Seq<(Seq<char>, Seq<char>)> {
    v.map_values(|p: (String, String)| (p.0@, p.1@))
}

/// Parses one quoted HTML tag attribute at the front of `line`.
pub fn parse_html_tag_attribute(line: &str) -> (r: Option<((String, String), String)>)
    ensures
        match spec_attr_kv(line@) {
            Some(((k, v), rest)) => r matches Some(((rk, rv), rr)) && rk@ == k && rv@ == v && rr@
                == rest,
            None => r is None,
        },
{
    let llen = line.unicode_len();
    let w = skip_ws(line, 0);
    let a1 = line.substring_char(w, llen);
    let a1len = llen - w;
    match find_char(a1, '=') {
        None => None,
        Some(k) => {
            proof {
                lemma_find_ix(a1@, char_is('='));
            }
            let key = a1.substring_char(0, k).to_owned();
            let after = a1.substring_char(k, a1len);
            let afterlen = a1len - k;
            if starts_with_at(after, 0, "=\"") {
                let plen = "=\"".unicode_len();
                proof {
                    assert(after@.take("=\""@.len() as int) =~= after@.subrange(
                        0,
                        "=\""@.len() as int,
                    ));
                }
                let v = after.substring_char(plen, afterlen);
                match find_char(v, '"') {
                    None => None,
                    Some(q) => {
                        proof {
                            lemma_find_ix(v@, char_is('"'));
                        }
                        let value = v.substring_char(0, q).to_owned();
                        let rest = v.substring_char(q + 1, afterlen - plen).to_owned();
                        Some(((key, value), rest))
                    },
                }
            } else if starts_with_at(after, 0, "={`") {
                let plen = "={`".unicode_len();
                proof {
                    assert(after@.take("={`"@.len() as int) =~= after@.subrange(
                        0,
                        "={`"@.len() as int,
                    ));
                    if after@.len() >= "=\""@.len() && after@.take("=\""@.len() as int)
                        == "=\""@ {
                        assert(occurs_at(after@, "=\""@, 0)) by {
                            assert(after@.subrange(0, "=\""@.len() as int) =~= after@.take(
                                "=\""@.len() as int,
                            ));
                        }
                    }
                }
                let v = after.substring_char(plen, afterlen);
                proof {
                    reveal_strlit("`}");
                }
                match find_sub(v, "`}") {
                    None => None,
                    Some(q) => {
                        proof {
                            lemma_find_sub(v@, "`}"@);
                        }
                        let value = v.substring_char(0, q).to_owned();
                        let rest = v.substring_char(q + 2, afterlen - plen).to_owned();
                        Some(((key, value), rest))
                    },
                }
            } else {
                proof {
                    assert forall|p: Seq<char>|
                        after@.len() >= p.len() && after@.take(p.len() as int) == p implies
                        occurs_at(after@, p, 0) by {
                        assert(after@.subrange(0, p.len() as int) =~= after@.take(p.len() as int));
                    }
                }
                None
            }
        },
    }
}

/// Parses one `key:value` client directive at the front of `line`.
pub fn parse_astro_client_directive(line: &str) -> (r: Option<((String, String), String)>)
    ensures
        match spec_attr_directive(line@) {
            Some(((k, v), rest)) => r matches Some(((rk, rv), rr)) && rk@ == k && rv@ == v && rr@
                == rest,
            None => r is None,
        },
{
    let llen = line.unicode_len();
    let w = skip_ws(line, 0);
    let a1 = line.substring_char(w, llen);
    let a1len = llen - w;
    let l1 = alnum_prefix(a1);
    if l1 >= 1 && l1 < a1len && a1.get_char(l1) == ':' {
        let a2 = a1.substring_char(l1 + 1, a1len);
        let l2 = alnum_prefix(a2);
        if l2 >= 1 {
            let k = a1.substring_char(0, l1).to_owned();
            let v = a2.substring_char(0, l2).to_owned();
            let rest = a2.substring_char(l2, a1len - (l1 + 1)).to_owned();
            Some(((k, v), rest))
        } else {
            None
        }
    } else {
        None
    }
}

/// Parses the attribute list of a tag: client directives and quoted
/// attributes, in the order written.
pub fn parse_html_tag_attributes(attributes: &str) -> (r: Vec<(String, String)>)
    ensures
        pairs_view(r@) == spec_attrs(attributes@),
{
    let mut out: Vec<(String, String)> = Vec::new();
    let mut cur: String = attributes.to_owned();
    proof {
        assert(pairs_view(out@) + spec_attrs(cur@) =~= spec_attrs(attributes@));
    }
    loop
        invariant
            pairs_view(out@) + spec_attrs(cur@) == spec_attrs(attributes@),
        decreases cur@.len(),
    {
        let step = match parse_astro_client_directive(cur.as_str()) {
            Some(x) => Some(x),
            None => parse_html_tag_attribute(cur.as_str()),
        };
        proof {
            lemma_attr_one_consumes(cur@);
        }
        match step {
            None => {
                proof {
                    assert(pairs_view(out@) + spec_attrs(cur@) =~= pairs_view(out@));
                }
                return out;
            },
            Some(((k, v), rest)) => {
                let ghost old_out = out@;
                let ghost old_cur = cur@;
                out.push((k, v));
                cur = rest;
                proof {
                    assert(pairs_view(out@) =~= pairs_view(old_out) + seq![
                        (out@.last().0@, out@.last().1@),
                    ]);
                    assert(pairs_view(out@) + spec_attrs(cur@) =~= pairs_view(old_out)
                        + spec_attrs(old_cur));
                }
            },
        }
    }
}

/// The value of the last attribute named `key` among `pairs`.
pub fn attrs_get(pairs: &Vec<(String, String)>, key: &str) -> (r: Option<String>)
    ensures
        match attrs_lookup(pairs_view(pairs@), key@) {
            Some(v) => r matches Some(s) && s@ == v,
            None => r is None,
        },
{
    let ghost ps = pairs_view(pairs@);
    let mut i: usize = pairs.len();
    while i > 0
        invariant
            i <= pairs.len(),
            ps == pairs_view(pairs@),
            forall|j: int| i <= j < ps.len() ==> (#[trigger] ps[j]).0 != key@,
        decreases i,
    {
        i = i - 1;
        let p = &pairs[i];
        if eq_str(p.0.as_str(), key) {
            proof {
                lemma_lookup_unmatched_tail(ps, key@, i + 1);
                assert(ps.take(i + 1).last() == ps[i as int]);
                assert(ps.take(i + 1).drop_last() =~= ps.take(i as int));
            }
            return Some(p.1.clone());
        }
    }
    proof {
        lemma_lookup_unmatched_tail(ps, key@, 0);
        assert(ps.take(0) =~= Seq::<(Seq<char>, Seq<char>)>::empty());
    }
    None
}

/// Case-insensitive match of one character against its lower and upper form.
pub open spec fn ci(c: char, lo: char, up: char) -> bool {
    c == lo || c == up
}

/// An href is external when its scheme is `http://` or `https://`, compared
/// case-insensitively.
pub open spec fn is_external_href(h: Seq<char>) -> bool {
    (h.len() >= 7 && ci(h[0], 'h', 'H') && ci(h[1], 't', 'T') && ci(h[2], 't', 'T') && ci(
        h[3],
        'p',
        'P',
    ) && h[4] == ':' && h[5] == '/' && h[6] == '/') || (h.len() >= 8 && ci(h[0], 'h', 'H') && ci(
        h[1],
        't',
        'T',
    ) && ci(h[2], 't', 'T') && ci(h[3], 'p', 'P') && ci(h[4], 's', 'S') && h[5] == ':' && h[6]
        == '/' && h[7] == '/')
}

/// Splits an external href into its scheme, as written, and the rest; `None`
/// exactly when the href has no `http://` or `https://` scheme.
pub fn parse_href_scheme(href: &str) -> (r: Option<(String, String)>)
    ensures
        r is Some <==> is_external_href(href@),
        match r {
            Some((scheme, rest)) => (scheme@ == href@.take(7) && rest@ == href@.skip(7)
                && href@[4] == ':') || (scheme@ == href@.take(8) && rest@ == href@.skip(8)
                && ci(href@[4], 's', 'S')),
            None => true,
        },
{
    let hlen = href.unicode_len();
    if hlen >= 7 {
        let c0 = href.get_char(0);
        let c1 = href.get_char(1);
        let c2 = href.get_char(2);
        let c3 = href.get_char(3);
        let c4 = href.get_char(4);
        let c5 = href.get_char(5);
        let c6 = href.get_char(6);
        if (c0 == 'h' || c0 == 'H') && (c1 == 't' || c1 == 'T') && (c2 == 't' || c2 == 'T') && (c3
            == 'p' || c3 == 'P') {
            if c4 == ':' && c5 == '/' && c6 == '/' {
                let scheme = href.substring_char(0, 7).to_owned();
                let rest = href.substring_char(7, hlen).to_owned();
                return Some((scheme, rest));
            }
            if hlen >= 8 && (c4 == 's' || c4 == 'S') && c5 == ':' && c6 == '/' && href.get_char(7)
                == '/' {
                let scheme = href.substring_char(0, 8).to_owned();
                let rest = href.substring_char(8, hlen).to_owned();
                return Some((scheme, rest));
            }
        }
    }
    None
}

} // verus!

verus! {

/// Outcome of scanning a tail for an anchor element.
pub enum AnchorScan {
    /// No complete anchor occurs; the caller passes the line through.
    Miss,
    /// An anchor was segmented but its attributes carry no `href`.
    NoHref,
    /// A complete anchor: the markup through the rewritten opening tag, the
    /// raw link content, the icon appended after the content, and the rest.
    Hit { markup_open: Seq<char>, content: Seq<char>, icon: Seq<char>, rest: Seq<char> },
}

/// Segments the first anchor element of `t` and rewrites its opening tag:
/// external links gain `target` and `rel` attributes when absent, and an
/// icon marker after the link text.
pub open spec fn spec_anchor(t: Seq<char>) -> AnchorScan {
    match spec_find_sub(t, "<a"@) {
        None => AnchorScan::Miss,
        Some(k) => {
            let initial = t.take(k);
            let rem = t.skip(k);
            let after = rem.skip("<a"@.len() as int);
            let w = spec_ws_prefix_len(after);
            let seg = if w >= 1 {
                let a2 = after.skip(w);
                match find_ix(a2, char_is('>')) {
                    Some(g) => Some((a2.take(g), a2.skip(g + 1))),
                    None => None,
                }
            } else {
                None
            };
            let seg2 = match seg {
                Some(x) => Some(x),
                None => if rem.len() >= "<a>"@.len() && rem.take("<a>"@.len() as int) == "<a>"@ {
                    Some((Seq::<char>::empty(), rem.skip("<a>"@.len() as int)))
                } else {
                    None
                },
            };
            match seg2 {
                None => AnchorScan::Miss,
                Some((attrs_seg, final_seg)) => {
                    match spec_find_sub(final_seg, "</a>"@) {
                        None => AnchorScan::Miss,
                        Some(q) => {
                            let content = final_seg.take(q);
                            let rest = final_seg.skip(q + "</a>"@.len());
                            let pairs = spec_attrs(attrs_seg);
                            match attrs_lookup(pairs, "href"@) {
                                None => AnchorScan::NoHref,
                                Some(href) => {
                                    let ext = is_external_href(href);
                                    let additional = (if ext && attrs_lookup(pairs, "target"@)
                                        is None {
                                        " target=\"_blank\""@
                                    } else {
                                        Seq::<char>::empty()
                                    }) + (if ext && attrs_lookup(pairs, "rel"@) is None {
                                        " rel=\"nofollow noopener noreferrer\""@
                                    } else {
                                        Seq::<char>::empty()
                                    });
                                    let icon = if ext {
                                        "&nbsp;<LinkIcon />"@
                                    } else {
                                        Seq::<char>::empty()
                                    };
                                    AnchorScan::Hit {
                                        markup_open: initial + "<a "@ + attrs_seg + additional
                                            + ">"@,
                                        content,
                                        icon,
                                        rest,
                                    }
                                },
                            }
                        },
                    }
                },
            }
        },
    }
}

pub proof fn lemma_anchor_lens(t: Seq<char>)
    ensures
        match spec_anchor(t) {
            AnchorScan::Hit { markup_open, content, icon, rest } => content.len() + 4 <= t.len()
                && rest.len() + 4 <= t.len(),
            _ => true,
        },
{
    reveal_strlit("<a");
    reveal_strlit("<a>");
    reveal_strlit("</a>");
    lemma_find_sub(t, "<a"@);
    match spec_find_sub(t, "<a"@) {
        None => {},
        Some(k) => {
            let rem = t.skip(k);
            let after = rem.skip(2);
            lemma_ws_prefix_bounds(after);
            let w = spec_ws_prefix_len(after);
            if w >= 1 {
                lemma_find_ix(after.skip(w), char_is('>'));
            }
            match spec_anchor(t) {
                AnchorScan::Hit { markup_open, content, icon, rest } => {
                    let seg = if w >= 1 {
                        let a2 = after.skip(w);
                        match find_ix(a2, char_is('>')) {
                            Some(g) => Some((a2.take(g), a2.skip(g + 1))),
                            None => None,
                        }
                    } else {
                        None
                    };
                    let seg2 = match seg {
                        Some(x) => Some(x),
                        None => if rem.len() >= 3 && rem.take(3) == "<a>"@ {
                            Some((Seq::<char>::empty(), rem.skip(3)))
                        } else {
                            None
                        },
                    };
                    match seg2 {
                        Some((attrs_seg, final_seg)) => {
                            lemma_find_sub(final_seg, "</a>"@);
                        },
                        None => {},
                    }
                },
                _ => {},
            }
        },
    }
}

/// The characters that trigger inline formatting.
pub open spec fn is_trigger(c: char) -> bool {
    c == '`' || c == '*' || c == '<'
}

/// The predicate form of [`is_trigger`].
pub open spec fn trigger_pred() -> spec_fn(char) -> bool {
    |c: char| is_trigger(c)
}

/// The inline formatter: rewrites the first trigger span of `s`, then
/// recurses on the remainder; text without a complete span passes through
/// unchanged, and an anchor without `href` is the one failure.
pub open spec fn spec_inline(s: Seq<char>) -> Option<Seq<char>>
    decreases s.len(), 1int,
    via spec_inline_decreases
{
    match find_ix(s, trigger_pred()) {
        None => Some(s),
        Some(i) => {
            let pre = s.take(i);
            let tail = s.skip(i);
            if s[i] == '`' {
                match spec_code_span(tail) {
                    SpanScan::Miss => Some(s),
                    SpanScan::Hit { markup, rest } => match spec_inline(rest) {
                        None => None,
                        Some(r) => Some(pre + markup + r),
                    },
                }
            } else if s[i] == '<' {
                match spec_anchor(tail) {
                    AnchorScan::Miss => Some(s),
                    AnchorScan::NoHref => None,
                    AnchorScan::Hit { markup_open, content, icon, rest } => match spec_inline(
                        content,
                    ) {
                        None => None,
                        Some(c) => match spec_inline(rest) {
                            None => None,
                            Some(r) => Some(pre + markup_open + c + icon + "</a>"@ + r),
                        },
                    },
                }
            } else {
                match spec_strong(tail) {
                    SpanScan::Hit { markup, rest } => match spec_inline(rest) {
                        None => None,
                        Some(r) => Some(pre + markup + r),
                    },
                    SpanScan::Miss => match spec_em(tail) {
                        SpanScan::Hit { markup, rest } => match spec_inline(rest) {
                            None => None,
                            Some(r) => Some(pre + markup + r),
                        },
                        SpanScan::Miss => Some(s),
                    },
                }
            }
        },
    }
}

#[via_fn]
proof fn spec_inline_decreases(s: Seq<char>) {
    match find_ix(s, trigger_pred()) {
        None => {},
        Some(i) => {
            lemma_find_ix(s, trigger_pred());
            let tail = s.skip(i);
            lemma_code_span_lens(tail);
            lemma_anchor_lens(tail);
            lemma_strong_lens(tail);
            lemma_em_lens(tail);
        },
    }
}

/// First trigger character of `s`, pinned to the spec-level scan.
fn find_first_trigger(s: &str) -> (r: Option<usize>)
    ensures
        match r {
            Some(i) => find_ix(s@, trigger_pred()) == Some(i as int),
            None => find_ix(s@, trigger_pred()) is None,
        },
{
    let slen = s.unicode_len();
    let mut i: usize = 0;
    while i < slen
        invariant
            i <= slen,
            slen == s@.len(),
            forall|j: int| 0 <= j < i ==> !is_trigger(s@[j]),
        decreases slen - i,
    {
        let c = s.get_char(i);
        if c == '`' || c == '*' || c == '<' {
            proof {
                lemma_find_ix_some(s@, trigger_pred(), i as int);
            }
            return Some(i);
        }
        i = i + 1;
    }
    proof {
        lemma_find_ix_none(s@, trigger_pred());
    }
    None
}

/// Rewrites the first anchor element of `line`: injects `target` and `rel`
/// into external links and appends the icon marker; `Err` exactly when an
/// anchor was segmented whose attributes lack `href`, or when the link text
/// itself holds such an anchor.
pub fn form_html_anchor_element_line(line: &str) -> (r: Result<
    Option<(String, String)>,
    MdError,
>)
    ensures
        ({
            let sa = spec_anchor(line@);
            match r {
                Ok(None) => sa is Miss,
                Ok(Some((m, f))) => sa matches AnchorScan::Hit {
                    markup_open,
                    content,
                    icon,
                    rest,
                } && spec_inline(content) matches Some(c) && m@ == markup_open + c + icon
                    + "</a>"@ && f@ == rest,
                Err(e) => e == MdError::MissingRequiredAttribute && (sa is NoHref || (sa matches
                AnchorScan::Hit { markup_open, content, icon, rest } && spec_inline(content)
                    is None)),
            }
        }),
    decreases line@.len(), 0int,
{
    let llen = line.unicode_len();
    proof {
        reveal_strlit("<a");
        reveal_strlit("<a>");
        reveal_strlit("</a>");
    }
    let k = match find_sub(line, "<a") {
        None => {
            return Ok(None);
        },
        Some(k) => k,
    };
    proof {
        lemma_find_sub(line@, "<a"@);
    }
    let rem = line.substring_char(k, llen);
    let remlen = llen - k;
    let after = rem.substring_char(2, remlen);
    let afterlen = remlen - 2;
    let w = skip_ws(after, 0);
    let seg: Option<(String, String)> = if w >= 1 {
        let a2 = after.substring_char(w, afterlen);
        match find_char(a2, '>') {
            Some(g) => {
                proof {
                    lemma_find_ix(a2@, char_is('>'));
                }
                Some(
                    (
                        a2.substring_char(0, g).to_owned(),
                        a2.substring_char(g + 1, afterlen - w).to_owned(),
                    ),
                )
            },
            None => None,
        }
    } else {
        None
    };
    let seg2: Option<(String, String)> = match seg {
        Some(x) => Some(x),
        None => {
            if starts_with_at(rem, 0, "<a>") {
                proof {
                    assert(rem@.take("<a>"@.len() as int) =~= rem@.subrange(
                        0,
                        "<a>"@.len() as int,
                    ));
                }
                Some((String::new(), rem.substring_char(3, remlen).to_owned()))
            } else {
                proof {
                    if rem@.len() >= "<a>"@.len() && rem@.take("<a>"@.len() as int) == "<a>"@ {
                        assert(occurs_at(rem@, "<a>"@, 0)) by {
                            assert(rem@.subrange(0, "<a>"@.len() as int) =~= rem@.take(
                                "<a>"@.len() as int,
                            ));
                        }
                    }
                }
                None
            }
        },
    };
    let (attrs_seg, final_seg) = match seg2 {
        None => {
            return Ok(None);
        },
        Some(x) => x,
    };
    let flen = final_seg.as_str().unicode_len();
    let q = match find_sub(final_seg.as_str(), "</a>") {
        None => {
            return Ok(None);
        },
        Some(q) => q,
    };
    proof {
        lemma_find_sub(final_seg@, "</a>"@);
    }
    let content = final_seg.as_str().substring_char(0, q);
    let rest = final_seg.as_str().substring_char(q + 4, flen).to_owned();
    let pairs = parse_html_tag_attributes(attrs_seg.as_str());
    let href = match attrs_get(&pairs, "href") {
        None => {
            return Err(MdError::MissingRequiredAttribute);
        },
        Some(h) => h,
    };
    let ext = parse_href_scheme(href.as_str()).is_some();
    let formatted_content = match parse_inline_wrap_text(content) {
        Ok(c) => c,
        Err(e) => {
            return Err(e);
        },
    };
    let initial = line.substring_char(0, k);
    let mut m = initial.to_owned();
    m.append("<a ");
    m.append(attrs_seg.as_str());
    if ext {
        if attrs_get(&pairs, "target").is_none() {
            m.append(" target=\"_blank\"");
        }
        if attrs_get(&pairs, "rel").is_none() {
            m.append(" rel=\"nofollow noopener noreferrer\"");
        }
    }
    m.append(">");
    m.append(formatted_content.as_str());
    if ext {
        m.append("&nbsp;<LinkIcon />");
    }
    m.append("</a>");
    Ok(Some((m, rest)))
}

/// Applies the inline formatter to a whole line: the generated line, or the
/// missing-`href` error.
pub fn parse_inline_wrap_text(line: &str) -> (r: Result<String, MdError>)
    ensures
        match spec_inline(line@) {
            Some(v) => r matches Ok(s) && s@ == v,
            None => r matches Err(e) && e == MdError::MissingRequiredAttribute,
        },
    decreases line@.len(), 1int,
{
    let llen = line.unicode_len();
    let i = match find_first_trigger(line) {
        None => {
            return Ok(line.to_owned());
        },
        Some(i) => i,
    };
    proof {
        lemma_find_ix(line@, trigger_pred());
    }
    let tail = line.substring_char(i, llen);
    let c = line.get_char(i);
    let step: Option<(String, String)> = if c == '`' {
        form_code_span_line(tail)
    } else if c == '<' {
        proof {
            lemma_anchor_lens(tail@);
        }
        match form_html_anchor_element_line(tail) {
            Ok(x) => x,
            Err(e) => {
                return Err(e);
            },
        }
    } else {
        match form_strong_emphasis_line(tail) {
            Some(x) => Some(x),
            None => form_emphasis_line(tail),
        }
    };
    proof {
        lemma_code_span_lens(tail@);
        lemma_strong_lens(tail@);
        lemma_em_lens(tail@);
    }
    match step {
        None => Ok(line.to_owned()),
        Some((markup, rest)) => {
            let fin = match parse_inline_wrap_text(rest.as_str()) {
                Ok(f) => f,
                Err(e) => {
                    return Err(e);
                },
            };
            let mut out = line.substring_char(0, i).to_owned();
            out.append(markup.as_str());
            out.append(fin.as_str());
            Ok(out)
        },
    }
}

} // verus!

verus! {

/// One inline-code fragment holding only digits, as
/// `` <InlineCodeFragment code={`N`} /> ``: the consumed text and the rest.
pub open spec fn spec_icf_num(t: Seq<char>) -> Option<(Seq<char>, Seq<char>)> {
    let open = "<InlineCodeFragment code={`"@;
    if t.len() >= open.len() && t.take(open.len() as int) == open {
        let v = t.skip(open.len() as int);
        let d = pred_prefix_len(v, digit_pred());
        if d >= 1 {
            let v2 = v.skip(d);
            let close = "`} />"@;
            if v2.len() >= close.len() && v2.take(close.len() as int) == close {
                let used = open.len() + d + close.len();
                Some((t.take(used as int), t.skip(used as int)))
            } else {
                None
            }
        } else {
            None
        }
    } else {
        None
    }
}

/// A numeric range between two digit-only inline-code fragments, joined by a
/// dash: rewritten with thin spaces around an n-dash.
pub open spec fn spec_numrange_one(t: Seq<char>) -> Option<(Seq<char>, Seq<char>)> {
    match spec_icf_num(t) {
        None => None,
        Some((first, r1)) => {
            let dash: Option<Seq<char>> = if r1.len() >= "&ndash;"@.len() && r1.take(
                "&ndash;"@.len() as int,
            ) == "&ndash;"@ {
                Some(r1.skip("&ndash;"@.len() as int))
            } else if r1.len() >= "-"@.len() && r1.take("-"@.len() as int) == "-"@ {
                Some(r1.skip("-"@.len() as int))
            } else {
                None
            };
            match dash {
                None => None,
                Some(r2) => match spec_icf_num(r2) {
                    None => None,
                    Some((second, r3)) => Some(
                        (first + "&thinsp;&ndash;&thinsp;"@ + second, r3),
                    ),
                },
            }
        },
    }
}

/// Any inline-code fragment: consumed text reproduced unchanged, and the
/// rest.
pub open spec fn spec_icf_any(t: Seq<char>) -> Option<(Seq<char>, Seq<char>)> {
    let open = "<InlineCodeFragment code={`"@;
    if t.len() >= open.len() && t.take(open.len() as int) == open {
        let v = t.skip(open.len() as int);
        match spec_find_sub(v, "/>"@) {
            None => None,
            Some(q) => Some(
                (open + v.take(q) + "/>"@, v.skip(q + "/>"@.len())),
            ),
        }
    } else {
        None
    }
}

pub proof fn lemma_numrange_step_lens(t: Seq<char>)
    ensures
        match spec_numrange_one(t) {
            Some((part, rest)) => rest.len() < t.len(),
            None => true,
        },
        match spec_icf_any(t) {
            Some((part, rest)) => rest.len() < t.len(),
            None => true,
        },
{
    reveal_strlit("<InlineCodeFragment code={`");
    reveal_strlit("`} />");
    reveal_strlit("&ndash;");
    reveal_strlit("-");
    reveal_strlit("/>");
    let open = "<InlineCodeFragment code={`"@;
    if t.len() >= open.len() && t.take(open.len() as int) == open {
        let v = t.skip(open.len() as int);
        lemma_pred_prefix_bounds(v, digit_pred());
        match spec_find_sub(v, "/>"@) {
            Some(q) => {
                lemma_find_sub(v, "/>"@);
            },
            None => {},
        }
        let d = pred_prefix_len(v, digit_pred());
        if d >= 1 {
            let v2 = v.skip(d);
            if v2.len() >= 5 && v2.take(5) == "`} />"@ {
                let r1 = t.skip(open.len() + d + 5);
                let dash: Option<Seq<char>> = if r1.len() >= 7 && r1.take(7) == "&ndash;"@ {
                    Some(r1.skip(7))
                } else if r1.len() >= 1 && r1.take(1) == "-"@ {
                    Some(r1.skip(1))
                } else {
                    None
                };
                match dash {
                    Some(r2) => {
                        if r2.len() >= open.len() && r2.take(open.len() as int) == open {
                            let w = r2.skip(open.len() as int);
                            lemma_pred_prefix_bounds(w, digit_pred());
                        }
                    },
                    None => {},
                }
            }
        }
    }
}

/// The number-range polish pass over a formatted line: every inline-code
/// fragment is reproduced, and a dash between two digit-only fragments is
/// retyped with thin spaces and an n-dash; `None` when the line holds a
/// fragment opening that does not complete.
pub open spec fn spec_numrange(s: Seq<char>) -> Option<Seq<char>>
    decreases s.len(),
    via spec_numrange_decreases
{
    match spec_find_sub(s, "<InlineCodeFragment"@) {
        None => None,
        Some(i) => {
            let initial = s.take(i);
            let t = s.skip(i);
            let step = match spec_numrange_one(t) {
                Some(x) => Some(x),
                None => spec_icf_any(t),
            };
            match step {
                None => None,
                Some((part, rem)) => match spec_numrange(rem) {
                    Some(v) => Some(initial + part + v),
                    None => Some(initial + part + rem),
                },
            }
        },
    }
}

#[via_fn]
proof fn spec_numrange_decreases(s: Seq<char>) {
    match spec_find_sub(s, "<InlineCodeFragment"@) {
        None => {},
        Some(i) => {
            lemma_find_sub(s, "<InlineCodeFragment"@);
            reveal_strlit("<InlineCodeFragment");
            lemma_numrange_step_lens(s.skip(i));
        },
    }
}

/// Recognizes one digit-only inline-code fragment at the front of `t`.
fn icf_num(t: &str) -> (r: Option<(String, String)>)
    ensures
        match spec_icf_num(t@) {
            Some((part, rest)) => r matches Some((p, f)) && p@ == part && f@ == rest,
            None => r is None,
        },
{
    let tlen = t.unicode_len();
    let open = "<InlineCodeFragment code={`";
    let openlen = open.unicode_len();
    if !starts_with_at(t, 0, open) {
        proof {
            if t@.len() >= openlen && t@.take(openlen as int) == open@ {
                assert(occurs_at(t@, open@, 0)) by {
                    assert(t@.subrange(0, openlen as int) =~= t@.take(openlen as int));
                }
            }
        }
        return None;
    }
    proof {
        assert(t@.take(openlen as int) =~= t@.subrange(0, openlen as int));
    }
    let v = t.substring_char(openlen, tlen);
    let d = digit_prefix(v);
    if d < 1 {
        return None;
    }
    let vlen = tlen - openlen;
    let v2 = v.substring_char(d, vlen);
    let close = "`} />";
    let closelen = close.unicode_len();
    if !starts_with_at(v2, 0, close) {
        proof {
            if v2@.len() >= closelen && v2@.take(closelen as int) == close@ {
                assert(occurs_at(v2@, close@, 0)) by {
                    assert(v2@.subrange(0, closelen as int) =~= v2@.take(closelen as int));
                }
            }
        }
        return None;
    }
    proof {
        assert(v2@.take(closelen as int) =~= v2@.subrange(0, closelen as int));
    }
    let used = openlen + d + closelen;
    proof {
        assert(t@.skip(openlen as int).skip(d as int).take(closelen as int) =~= t@.subrange(
            openlen + d,
            openlen + d + closelen,
        ));
        assert(t@.subrange(openlen + d, used as int).len() == closelen);
    }
    let part = t.substring_char(0, used).to_owned();
    let rest = t.substring_char(used, tlen).to_owned();
    Some((part, rest))
}

/// Rewrites a numeric range between two inline-code fragments.
fn form_inline_wrap_text_number_range(t: &str) -> (r: Option<(String, String)>)
    ensures
        match spec_numrange_one(t@) {
            Some((part, rest)) => r matches Some((p, f)) && p@ == part && f@ == rest,
            None => r is None,
        },
{
    let (first, r1) = match icf_num(t) {
        None => {
            return None;
        },
        Some(x) => x,
    };
    let r1len = r1.as_str().unicode_len();
    let r2: String = if starts_with_at(r1.as_str(), 0, "&ndash;") {
        proof {
            assert(r1@.take("&ndash;"@.len() as int) =~= r1@.subrange(0, "&ndash;"@.len() as int));
        }
        let dlen = "&ndash;".unicode_len();
        r1.as_str().substring_char(dlen, r1len).to_owned()
    } else if starts_with_at(r1.as_str(), 0, "-") {
        proof {
            assert(r1@.take("-"@.len() as int) =~= r1@.subrange(0, "-"@.len() as int));
            if r1@.len() >= "&ndash;"@.len() && r1@.take("&ndash;"@.len() as int) == "&ndash;"@ {
                assert(occurs_at(r1@, "&ndash;"@, 0)) by {
                    assert(r1@.subrange(0, "&ndash;"@.len() as int) =~= r1@.take(
                        "&ndash;"@.len() as int,
                    ));
                }
            }
        }
        let dlen = "-".unicode_len();
        r1.as_str().substring_char(dlen, r1len).to_owned()
    } else {
        proof {
            assert forall|p: Seq<char>|
                r1@.len() >= p.len() && r1@.take(p.len() as int) == p implies occurs_at(
                r1@,
                p,
                0,
            ) by {
                assert(r1@.subrange(0, p.len() as int) =~= r1@.take(p.len() as int));
            }
        }
        return None;
    };
    let (second, r3) = match icf_num(r2.as_str()) {
        None => {
            return None;
        },
        Some(x) => x,
    };
    let mut part = first;
    part.append("&thinsp;&ndash;&thinsp;");
    part.append(second.as_str());
    Some((part, r3))
}

/// Reproduces one inline-code fragment unchanged.
fn form_inline_wrap_inline_code_fragment(t: &str) -> (r: Option<(String, String)>)
    ensures
        match spec_icf_any(t@) {
            Some((part, rest)) => r matches Some((p, f)) && p@ == part && f@ == rest,
            None => r is None,
        },
{
    let tlen = t.unicode_len();
    let open = "<InlineCodeFragment code={`";
    let openlen = open.unicode_len();
    if !starts_with_at(t, 0, open) {
        proof {
            if t@.len() >= openlen && t@.take(openlen as int) == open@ {
                assert(occurs_at(t@, open@, 0)) by {
                    assert(t@.subrange(0, openlen as int) =~= t@.take(openlen as int));
                }
            }
        }
        return None;
    }
    proof {
        assert(t@.take(openlen as int) =~= t@.subrange(0, openlen as int));
        reveal_strlit("/>");
    }
    let v = t.substring_char(openlen, tlen);
    let vlen = tlen - openlen;
    match find_sub(v, "/>") {
        None => None,
        Some(q) => {
            proof {
                lemma_find_sub(v@, "/>"@);
            }
            let mut part = String::new();
            part.append(open);
            let content = v.substring_char(0, q);
            part.append(content);
            part.append("/>");
            let rest = v.substring_char(q + 2, vlen).to_owned();
            Some((part, rest))
        },
    }
}

/// The number-range polish pass over a formatted line.
fn format_inline_wrap_text_number_range(line: &str) -> (r: Option<String>)
    ensures
        match spec_numrange(line@) {
            Some(v) => r matches Some(s) && s@ == v,
            None => r is None,
        },
    decreases line@.len(),
{
    let llen = line.unicode_len();
    proof {
        reveal_strlit("<InlineCodeFragment");
    }
    let i = match find_sub(line, "<InlineCodeFragment") {
        None => {
            return None;
        },
        Some(i) => i,
    };
    proof {
        lemma_find_sub(line@, "<InlineCodeFragment"@);
    }
    let t = line.substring_char(i, llen);
    let step = match form_inline_wrap_text_number_range(t) {
        Some(x) => Some(x),
        None => form_inline_wrap_inline_code_fragment(t),
    };
    proof {
        lemma_numrange_step_lens(t@);
    }
    match step {
        None => None,
        Some((part, rem)) => {
            let mut out = line.substring_char(0, i).to_owned();
            out.append(part.as_str());
            match format_inline_wrap_text_number_range(rem.as_str()) {
                Some(v) => {
                    out.append(v.as_str());
                    Some(out)
                },
                None => {
                    out.append(rem.as_str());
                    Some(out)
                },
            }
        },
    }
}

/// A formatted paragraph line: the inline pass, then the number-range pass,
/// wrapped in `<p>` tags unless empty.
pub open spec fn spec_paragraph(s: Seq<char>) -> Option<Seq<char>> {
    match spec_inline(s) {
        None => None,
        Some(p) => {
            let q = match spec_numrange(p) {
                Some(v) => v,
                None => p,
            };
            if q.len() == 0 {
                Some(q)
            } else {
                Some("<p>"@ + q + "</p>"@)
            }
        },
    }
}

/// Recognizes a plain paragraph line: inline-formats it and wraps it in
/// `<p>` tags; an empty line yields empty markup.
pub fn form_inline_wrap_text(line: &str) -> (r: Result<(String, LineType, usize), MdError>)
    ensures
        match spec_paragraph(line@) {
            Some(v) => r matches Ok((m, t, d)) && m@ == v && t == LineType::Paragraph && d == 0,
            None => r matches Err(e) && e == MdError::MissingRequiredAttribute,
        },
{
    let parsed = match parse_inline_wrap_text(line) {
        Ok(p) => p,
        Err(e) => {
            return Err(e);
        },
    };
    let polished = match format_inline_wrap_text_number_range(parsed.as_str()) {
        Some(v) => v,
        None => parsed,
    };
    if polished.as_str().unicode_len() == 0 {
        Ok((polished, LineType::Paragraph, 0))
    } else {
        let mut out = String::new();
        out.append("<p>");
        out.append(polished.as_str());
        out.append("</p>");
        Ok((out, LineType::Paragraph, 0))
    }
}

} // verus!

verus! {

/// Law: inline formatting is idempotent on text free of trigger
/// characters; such text passes through unchanged, so a second pass
/// returns the first pass's result.
pub proof fn lemma_inline_idempotent_trigger_free(x: Seq<char>)
    requires
        forall|i: int| 0 <= i < x.len() ==> !is_trigger(x[i]),
    ensures
        spec_inline(x) == Some(x),
        spec_inline(x) matches Some(y) && spec_inline(y) == spec_inline(x),
{
    lemma_find_ix_none(x, trigger_pred());
}

} // verus!
