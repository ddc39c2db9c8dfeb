//! A minimal renderer to plain HTML: headings and a simple inline pass
//! over code spans, emphasis and anchors, without the component pipeline.
use vstd::prelude::*;
use vstd::string::*;

use crate::parser::MdError;
use crate::parser::heading::parse_heading_text;
use crate::parser::inline::{
    attrs_get, attrs_lookup, is_external_href, pairs_view, parse_href_scheme,
    parse_html_tag_attributes, spec_attrs,
};
use crate::text::{
    char_is, find_ix, find_sub, is_ws, lemma_find_ix, lemma_find_sub, lemma_ws_prefix_bounds,
    occurs_at, pred_prefix_len, skip_ws, spec_dec_str, spec_find_sub, spec_ws_prefix_len,
    usize_to_string,
};

verus! {

/// The text after the leading whitespace of a line.
pub fn discard_leading_whitespace(line: &str) -> (r: String)
    ensures
        r@ == line@.skip(spec_ws_prefix_len(line@)),
{
    let llen = line.unicode_len();
    let w = skip_ws(line, 0);
    line.substring_char(w, llen).to_owned()
}

/// The author name read from a package author field: the text before the
/// first space-and-angle-bracket of the first entry.
pub fn author_name_from_cargo_pkg_authors(cargo_pkg_authors: &str) -> (r: Option<String>)
    ensures
        match spec_find_sub(cargo_pkg_authors@, " <"@) {
            Some(k) => r matches Some(v) && v@ == cargo_pkg_authors@.take(k),
            None => r is None,
        },
{
    parse_author_name_from_cargo_pkg_authors(cargo_pkg_authors)
}

/// Splits a package author field before its first space-and-angle-bracket.
pub fn parse_author_name_from_cargo_pkg_authors(cargo_pkg_authors: &str) -> (r: Option<String>)
    ensures
        match spec_find_sub(cargo_pkg_authors@, " <"@) {
            Some(k) => r matches Some(v) && v@ == cargo_pkg_authors@.take(k),
            None => r is None,
        },
{
    proof {
        reveal_strlit(" <");
    }
    match find_sub(cargo_pkg_authors, " <") {
        None => None,
        Some(k) => {
            proof {
                lemma_find_sub(cargo_pkg_authors@, " <"@);
            }
            Some(cargo_pkg_authors.substring_char(0, k).to_owned())
        },
    }
}

/// An anchor opening tag at the front of `t`, read loosely: the tag
/// prefix, optional whitespace, then everything up to the closing bracket
/// as attribute text.
pub open spec fn spec_loose_opening_tag(t: Seq<char>, etag: Seq<char>) -> Option<
    (Seq<char>, Seq<char>),
> {
    let pat = "<"@ + etag;
    if t.len() >= pat.len() && t.take(pat.len() as int) == pat {
        let after = t.skip(pat.len() as int);
        let a2 = after.skip(spec_ws_prefix_len(after));
        match find_ix(a2, char_is('>')) {
            Some(g) => Some((a2.take(g), a2.skip(g + 1))),
            None => None,
        }
    } else {
        None
    }
}

/// Parses an anchor opening tag loosely: its attribute text and the rest.
pub fn parse_opening_html_tag(line: &str, element_tag: &str) -> (r: Option<(String, String)>)
    ensures
        match spec_loose_opening_tag(line@, element_tag@) {
            Some((attrs, rest)) => r matches Some((a, rr)) && a@ == attrs && rr@ == rest,
            None => r is None,
        },
{
    let mut pat = String::new();
    pat.append("<");
    pat.append(element_tag);
    let plen = pat.as_str().unicode_len();
    let llen = line.unicode_len();
    if !crate::text::starts_with_at(line, 0, pat.as_str()) {
        proof {
            if line@.len() >= pat@.len() && line@.take(pat@.len() as int) == pat@ {
                assert(occurs_at(line@, pat@, 0)) by {
                    assert(line@.subrange(0, pat@.len() as int) =~= line@.take(pat@.len() as int));
                }
            }
        }
        return None;
    }
    proof {
        assert(line@.take(pat@.len() as int) =~= line@.subrange(0, pat@.len() as int));
    }
    let after = line.substring_char(plen, llen);
    let afterlen = llen - plen;
    let w = skip_ws(after, 0);
    let a2 = after.substring_char(w, afterlen);
    match crate::text::find_char(a2, '>') {
        None => None,
        Some(g) => {
            proof {
                lemma_find_ix(a2@, char_is('>'));
            }
            Some(
                (
                    a2.substring_char(0, g).to_owned(),
                    a2.substring_char(g + 1, afterlen - w).to_owned(),
                ),
            )
        },
    }
}

/// Splits a line around the first anchor opening tag: the text before it,
/// its attribute text, and the rest.
pub open spec fn spec_segment_anchor(t: Seq<char>) -> Option<(Seq<char>, Seq<char>, Seq<char>)> {
    match spec_find_sub(t, "<a"@) {
        None => None,
        Some(k) => match spec_loose_opening_tag(t.skip(k), "a"@) {
            Some((attrs, rest)) => Some((t.take(k), attrs, rest)),
            None => None,
        },
    }
}

/// Splits a line around the first anchor opening tag.
pub fn segment_anchor_element_line(line: &str) -> (r: Option<(String, String, String)>)
    ensures
        match spec_segment_anchor(line@) {
            Some((initial, attrs, rest)) => r matches Some((i, a, f)) && i@ == initial && a@
                == attrs && f@ == rest,
            None => r is None,
        },
{
    let llen = line.unicode_len();
    proof {
        reveal_strlit("<a");
    }
    match find_sub(line, "<a") {
        None => None,
        Some(k) => {
            proof {
                lemma_find_sub(line@, "<a"@);
                reveal_strlit("<");
                reveal_strlit("a");
                assert("<"@ + "a"@ =~= "<a"@);
            }
            let rem = line.substring_char(k, llen);
            match parse_opening_html_tag(rem, "a") {
                None => None,
                Some((attrs, rest)) => Some(
                    (line.substring_char(0, k).to_owned(), attrs, rest),
                ),
            }
        },
    }
}

/// The rewritten opening of the first anchor: external links gain
/// `target` and `rel` when absent; the link text is left for the caller.
pub open spec fn spec_html_anchor(t: Seq<char>) -> Option<Result<(Seq<char>, Seq<char>), MdError>,
> {
    match spec_segment_anchor(t) {
        None => None,
        Some((initial, attrs_seg, rest)) => {
            let pairs = spec_attrs(attrs_seg);
            match attrs_lookup(pairs, "href"@) {
                None => Some(Err(MdError::MissingRequiredAttribute)),
                Some(href) => {
                    let ext = is_external_href(href);
                    let additional = (if ext && attrs_lookup(pairs, "target"@) is None {
                        " target=\"_blank\""@
                    } else {
                        Seq::<char>::empty()
                    }) + (if ext && attrs_lookup(pairs, "rel"@) is None {
                        " rel=\"nofollow noopener noreferrer\""@
                    } else {
                        Seq::<char>::empty()
                    });
                    Some(Ok((initial + "<a "@ + attrs_seg + additional + ">"@, rest)))
                },
            }
        },
    }
}

/// Rewrites the opening tag of the first anchor of `line`; the rest,
/// starting with the link text, is returned unconsumed.
pub fn form_html_anchor_element_line(line: &str) -> (r: Result<Option<(String, String)>, MdError>)
    ensures
        match spec_html_anchor(line@) {
            Some(Ok((markup, rest))) => r matches Ok(Some((m, f))) && m@ == markup && f@ == rest,
            Some(Err(e)) => r matches Err(e2) && e2 == e,
            None => r matches Ok(x) && x is None,
        },
{
    match segment_anchor_element_line(line) {
        None => Ok(None),
        Some((initial, attrs_seg, rest)) => {
            let pairs = parse_html_tag_attributes(attrs_seg.as_str());
            let href = match attrs_get(&pairs, "href") {
                None => {
                    return Err(MdError::MissingRequiredAttribute);
                },
                Some(h) => h,
            };
            let ext = parse_href_scheme(href.as_str()).is_some();
            let mut m = initial;
            m.append("<a ");
            m.append(attrs_seg.as_str());
            if ext {
                if attrs_get(&pairs, "target").is_none() {
                    m.append(" target=\"_blank\"");
                }
                if attrs_get(&pairs, "rel").is_none() {
                    m.append(" rel=\"nofollow noopener noreferrer\"");
                }
            }
            m.append(">");
            Ok(Some((m, rest)))
        },
    }
}

/// The `<code>` form of the first backtick span of `line`.
pub open spec fn spec_code_span_html(t: Seq<char>) -> Option<(Seq<char>, Seq<char>)> {
    match find_ix(t, char_is('`')) {
        None => None,
        Some(k) => {
            let rest1 = t.skip(k + 1);
            match find_ix(rest1, char_is('`')) {
                None => None,
                Some(m) => Some(
                    (t.take(k) + "<code>"@ + rest1.take(m) + "</code>"@, rest1.skip(m + 1)),
                ),
            }
        },
    }
}

/// Wraps the first backtick span of `line` in a `<code>` element.
pub fn form_code_span_line(line: &str) -> (r: Option<(String, String)>)
    ensures
        match spec_code_span_html(line@) {
            Some((markup, rest)) => r matches Some((m, f)) && m@ == markup && f@ == rest,
            None => r is None,
        },
{
    match crate::parser::inline::segment_code_span_line(line) {
        None => None,
        Some((initial, code, fin)) => {
            let mut m = initial;
            m.append("<code>");
            m.append(code.as_str());
            m.append("</code>");
            Some((m, fin))
        },
    }
}

/// The `<em>` form of the first single-asterisk span of `line`.
pub open spec fn spec_em_html(t: Seq<char>) -> Option<(Seq<char>, Seq<char>)> {
    match crate::parser::inline::spec_em(t) {
        crate::parser::inline::SpanScan::Miss => None,
        crate::parser::inline::SpanScan::Hit { markup, rest } => Some((markup, rest)),
    }
}

/// Wraps the first emphasis span of `line` in an `<em>` element.
pub fn form_emphasis_line(line: &str) -> (r: Option<(String, String)>)
    ensures
        match spec_em_html(line@) {
            Some((markup, rest)) => r matches Some((m, f)) && m@ == markup && f@ == rest,
            None => r is None,
        },
{
    crate::parser::inline::form_emphasis_line(line)
}

/// The plain `<strong>` form of the first double-asterisk span of `line`.
pub open spec fn spec_strong_html(t: Seq<char>) -> Option<(Seq<char>, Seq<char>)> {
    match spec_find_sub(t, "**"@) {
        None => None,
        Some(k) => {
            let rest1 = t.skip(k + 2);
            match spec_find_sub(rest1, "**"@) {
                None => None,
                Some(m) => Some(
                    (t.take(k) + "<strong>"@ + rest1.take(m) + "</strong>"@, rest1.skip(m + 2)),
                ),
            }
        },
    }
}

/// Wraps the first strong-emphasis span of `line` in a `<strong>` element.
pub fn form_strong_emphasis_line(line: &str) -> (r: Option<(String, String)>)
    ensures
        match spec_strong_html(line@) {
            Some((markup, rest)) => r matches Some((m, f)) && m@ == markup && f@ == rest,
            None => r is None,
        },
{
    match crate::parser::inline::segment_strong_emphasis_line(line) {
        None => None,
        Some((initial, bold, fin)) => {
            let mut m = initial;
            m.append("<strong>");
            m.append(bold.as_str());
            m.append("</strong>");
            Some((m, fin))
        },
    }
}

proof fn lemma_plain_span_lens(t: Seq<char>)
    ensures
        match spec_strong_html(t) {
            Some((markup, rest)) => rest.len() + 4 <= t.len(),
            None => true,
        },
        match spec_em_html(t) {
            Some((markup, rest)) => rest.len() + 2 <= t.len(),
            None => true,
        },
        match spec_code_span_html(t) {
            Some((markup, rest)) => rest.len() + 2 <= t.len(),
            None => true,
        },
        match spec_html_anchor(t) {
            Some(Ok((markup, rest))) => rest.len() + 3 <= t.len(),
            _ => true,
        },
{
    reveal_strlit("*");
    reveal_strlit("**");
    reveal_strlit("<a");
    lemma_find_sub(t, "**"@);
    match spec_find_sub(t, "**"@) {
        Some(k) => {
            lemma_find_sub(t.skip(k + 2), "**"@);
        },
        None => {},
    }
    crate::parser::inline::lemma_em_lens(t);
    lemma_find_ix(t, char_is('`'));
    match find_ix(t, char_is('`')) {
        Some(k) => {
            lemma_find_ix(t.skip(k + 1), char_is('`'));
        },
        None => {},
    }
    reveal_strlit("<");
    reveal_strlit("a");
    assert("<"@ + "a"@ =~= "<a"@);
    lemma_find_sub(t, "<a"@);
    match spec_find_sub(t, "<a"@) {
        Some(k) => {
            let rem = t.skip(k);
            assert(rem.take(2) =~= t.subrange(k, k + 2));
            let after = rem.skip(2);
            lemma_ws_prefix_bounds(after);
            lemma_find_ix(after.skip(spec_ws_prefix_len(after)), char_is('>'));
        },
        None => {},
    }
}

/// The simple inline pass: the first matching form among strong, emphasis,
/// code span and anchor rewrites its span, and the pass recurses on the
/// rest; a line without a complete span passes through unchanged.
pub open spec fn spec_inline_html(s: Seq<char>) -> Option<Seq<char>>
    decreases s.len(),
    via spec_inline_html_decreases
{
    match spec_strong_html(s) {
        Some((markup, rest)) => match spec_inline_html(rest) {
            None => None,
            Some(f) => Some(markup + f),
        },
        None => match spec_em_html(s) {
            Some((markup, rest)) => match spec_inline_html(rest) {
                None => None,
                Some(f) => Some(markup + f),
            },
            None => match spec_code_span_html(s) {
                Some((markup, rest)) => match spec_inline_html(rest) {
                    None => None,
                    Some(f) => Some(markup + f),
                },
                None => match spec_html_anchor(s) {
                    Some(Ok((markup, rest))) => match spec_inline_html(rest) {
                        None => None,
                        Some(f) => Some(markup + f),
                    },
                    Some(Err(e)) => None,
                    None => Some(s),
                },
            },
        },
    }
}

#[via_fn]
proof fn spec_inline_html_decreases(s: Seq<char>) {
    lemma_plain_span_lens(s);
}

/// Applies the simple inline pass to a whole line.
pub fn parse_inline_wrap_text(line: &str) -> (r: Result<String, MdError>)
    ensures
        match spec_inline_html(line@) {
            Some(v) => r matches Ok(s) && s@ == v,
            None => r matches Err(e) && e == MdError::MissingRequiredAttribute,
        },
    decreases line@.len(),
{
    proof {
        lemma_plain_span_lens(line@);
    }
    let step: Option<(String, String)> = if let Some(v) = form_strong_emphasis_line(line) {
        Some(v)
    } else if let Some(v) = form_emphasis_line(line) {
        Some(v)
    } else if let Some(v) = form_code_span_line(line) {
        Some(v)
    } else {
        match form_html_anchor_element_line(line) {
            Err(e) => {
                return Err(e);
            },
            Ok(v) => v,
        }
    };
    match step {
        None => Ok(line.to_owned()),
        Some((markup, rest)) => {
            let fin = match parse_inline_wrap_text(rest.as_str()) {
                Ok(f) => f,
                Err(e) => {
                    return Err(e);
                },
            };
            let mut out = markup;
            out.append(fin.as_str());
            Ok(out)
        },
    }
}

/// The plain-HTML form of one line: a heading keeps its raw text in a
/// numbered heading element, any other non-empty line becomes an
/// inline-formatted paragraph, and an empty line produces nothing.
pub open spec fn spec_html_line(t: Seq<char>) -> Result<Option<Seq<char>>, MdError> {
    let level = pred_prefix_len(t, char_is('#'));
    let w = spec_ws_prefix_len(t.skip(level));
    if level >= 1 && w >= 1 {
        let value = t.skip(level + w);
        Ok(
            Some(
                "<h"@ + spec_dec_str(level) + ">"@ + value + "</h"@ + spec_dec_str(level) + ">"@,
            ),
        )
    } else if t.len() != 0 {
        match spec_inline_html(t) {
            None => Err(MdError::MissingRequiredAttribute),
            Some(v) => Ok(Some("<p>"@ + v + "</p>"@)),
        }
    } else {
        Ok(None)
    }
}

/// Renders one line to plain HTML.
pub fn parse_mdx_line(line: &str) -> (r: Result<Option<String>, MdError>)
    ensures
        match spec_html_line(line@) {
            Ok(Some(m)) => r matches Ok(Some(s)) && s@ == m,
            Ok(None) => r matches Ok(x) && x is None,
            Err(e) => r matches Err(e2) && e2 == e,
        },
{
    match parse_heading_text(line) {
        Some((value, level)) => {
            let l = usize_to_string(level);
            let mut m = String::new();
            m.append("<h");
            m.append(l.as_str());
            m.append(">");
            m.append(value.as_str());
            m.append("</h");
            m.append(l.as_str());
            m.append(">");
            Ok(Some(m))
        },
        None => {
            if line.unicode_len() != 0 {
                let v = match parse_inline_wrap_text(line) {
                    Ok(v) => v,
                    Err(e) => {
                        return Err(e);
                    },
                };
                let mut m = String::new();
                m.append("<p>");
                m.append(v.as_str());
                m.append("</p>");
                Ok(Some(m))
            } else {
                Ok(None)
            }
        },
    }
}

} // verus!
