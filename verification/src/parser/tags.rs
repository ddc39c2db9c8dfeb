//! HTML-style tag primitives: opening, closing and self-closing tags on one
//! line, and tag fragments continued across lines.
use vstd::prelude::*;
use vstd::string::*;

use crate::parser::HTMLTagType;
use crate::text::{
    alnum_pred, alnum_prefix, char_is, find_ix, is_alnum, is_ws, lemma_find_ix,
    lemma_pred_prefix_bounds, lemma_ws_prefix_bounds, occurs_at, pred_prefix_len, skip_ws,
    spec_ws_prefix_len, starts_with_at,
};

verus! {

/// Characters allowed inside a tag before its terminator.
pub open spec fn not_term(c: char) -> bool {
    c != '>' && c != '/'
}

/// The predicate form of [`not_term`].
pub open spec fn not_term_pred() -> spec_fn(char) -> bool {
    |c: char| not_term(c)
}

/// The inside of a tag: its alphanumeric name, then its attribute text,
/// read up to the first `>` or `/`; the rest of the line follows.
pub open spec fn spec_tag_content(t: Seq<char>) -> Option<((Seq<char>, Seq<char>), Seq<char>)> {
    let l = pred_prefix_len(t, not_term_pred());
    if l == 0 {
        None
    } else {
        let content = t.take(l);
        let rest = t.skip(l);
        let n = pred_prefix_len(content, alnum_pred());
        if n == 0 {
            None
        } else {
            let w = spec_ws_prefix_len(content.skip(n));
            Some(((content.take(n), content.skip(n).skip(w)), rest))
        }
    }
}

/// Length of the run of non-terminator characters at the front of `s`.
fn not_term_prefix(s: &str) -> (r: usize)
    ensures
        r == pred_prefix_len(s@, not_term_pred()),
        r <= s@.len(),
{
    let slen = s.unicode_len();
    let mut i: usize = 0;
    while i < slen
        invariant
            i <= slen,
            slen == s@.len(),
            forall|j: int| 0 <= j < i ==> not_term(s@[j]),
        decreases slen - i,
    {
        let c = s.get_char(i);
        if c == '>' || c == '/' {
            proof {
                crate::text::lemma_pred_prefix(s@, not_term_pred(), i as int);
            }
            return i;
        }
        i = i + 1;
    }
    proof {
        crate::text::lemma_pred_prefix(s@, not_term_pred(), slen as int);
    }
    slen
}

/// Reads a tag's name and attribute text at the front of `line`.
pub fn parse_html_tag_content(line: &str) -> (r: Option<((String, String), String)>)
    ensures
        match spec_tag_content(line@) {
            Some(((name, attrs), rest)) => r matches Some(((n, a), rr)) && n@ == name && a@
                == attrs && rr@ == rest,
            None => r is None,
        },
{
    let llen = line.unicode_len();
    let l = not_term_prefix(line);
    if l == 0 {
        return None;
    }
    let content = line.substring_char(0, l);
    let rest = line.substring_char(l, llen).to_owned();
    let n = alnum_prefix(content);
    if n == 0 {
        return None;
    }
    let name = content.substring_char(0, n).to_owned();
    let after_name = content.substring_char(n, l);
    let w = skip_ws(after_name, 0);
    let attrs = after_name.substring_char(w, l - n).to_owned();
    Some(((name, attrs), rest))
}

/// A `<name attrs>` opening tag at the front of `line`.
pub open spec fn spec_opening_tag(t: Seq<char>) -> Option<((Seq<char>, Seq<char>), Seq<char>)> {
    if t.len() >= 1 && t[0] == '<' {
        match spec_tag_content(t.skip(1)) {
            Some(((name, attrs), rest)) => if rest.len() >= 1 && rest[0] == '>' {
                Some(((name, attrs), rest.skip(1)))
            } else {
                None
            },
            None => None,
        }
    } else {
        None
    }
}

/// A `</name>` closing tag at the front of `line`.
pub open spec fn spec_closing_tag(t: Seq<char>) -> Option<((Seq<char>, Seq<char>), Seq<char>)> {
    if t.len() >= 2 && t[0] == '<' && t[1] == '/' {
        match spec_tag_content(t.skip(2)) {
            Some(((name, attrs), rest)) => if rest.len() >= 1 && rest[0] == '>' {
                Some(((name, attrs), rest.skip(1)))
            } else {
                None
            },
            None => None,
        }
    } else {
        None
    }
}

/// A `<name attrs/>` self-closing tag at the front of `line`.
pub open spec fn spec_self_closing_tag(t: Seq<char>) -> Option<
    ((Seq<char>, Seq<char>), Seq<char>),
> {
    if t.len() >= 1 && t[0] == '<' {
        match spec_tag_content(t.skip(1)) {
            Some(((name, attrs), rest)) => if rest.len() >= 2 && rest[0] == '/' && rest[1]
                == '>' {
                Some(((name, attrs), rest.skip(2)))
            } else {
                None
            },
            None => None,
        }
    } else {
        None
    }
}

/// An opening tag whose attribute list runs past the end of the line.
pub open spec fn spec_opening_tag_start(t: Seq<char>) -> Option<
    ((Seq<char>, Seq<char>), Seq<char>),
> {
    if t.len() >= 1 && t[0] == '<' {
        spec_tag_content(t.skip(1))
    } else {
        None
    }
}

/// Parses a `<name attrs>` opening tag.
pub fn parse_opening_html_tag(line: &str) -> (r: Option<(String, String, HTMLTagType, String)>)
    ensures
        match spec_opening_tag(line@) {
            Some(((name, attrs), rest)) => r matches Some((n, a, ty, rr)) && n@ == name && a@
                == attrs && ty == HTMLTagType::Opening && rr@ == rest,
            None => r is None,
        },
{
    let llen = line.unicode_len();
    if llen < 1 || line.get_char(0) != '<' {
        return None;
    }
    let t = line.substring_char(1, llen);
    match parse_html_tag_content(t) {
        None => None,
        Some(((name, attrs), rest)) => {
            let rlen = rest.as_str().unicode_len();
            if rlen >= 1 && rest.as_str().get_char(0) == '>' {
                let remaining = rest.as_str().substring_char(1, rlen).to_owned();
                Some((name, attrs, HTMLTagType::Opening, remaining))
            } else {
                None
            }
        },
    }
}

/// Parses a `</name>` closing tag.
pub fn parse_closing_html_tag(line: &str) -> (r: Option<(String, String, HTMLTagType, String)>)
    ensures
        match spec_closing_tag(line@) {
            Some(((name, attrs), rest)) => r matches Some((n, a, ty, rr)) && n@ == name && a@
                == attrs && ty == HTMLTagType::Closing && rr@ == rest,
            None => r is None,
        },
{
    let llen = line.unicode_len();
    if llen < 2 || line.get_char(0) != '<' || line.get_char(1) != '/' {
        return None;
    }
    let t = line.substring_char(2, llen);
    match parse_html_tag_content(t) {
        None => None,
        Some(((name, attrs), rest)) => {
            let rlen = rest.as_str().unicode_len();
            if rlen >= 1 && rest.as_str().get_char(0) == '>' {
                let remaining = rest.as_str().substring_char(1, rlen).to_owned();
                Some((name, attrs, HTMLTagType::Closing, remaining))
            } else {
                None
            }
        },
    }
}

/// Parses a `<name attrs/>` self-closing tag.
pub fn parse_self_closing_html_tag(line: &str) -> (r: Option<
    (String, String, HTMLTagType, String),
>)
    ensures
        match spec_self_closing_tag(line@) {
            Some(((name, attrs), rest)) => r matches Some((n, a, ty, rr)) && n@ == name && a@
                == attrs && ty == HTMLTagType::SelfClosing && rr@ == rest,
            None => r is None,
        },
{
    let llen = line.unicode_len();
    if llen < 1 || line.get_char(0) != '<' {
        return None;
    }
    let t = line.substring_char(1, llen);
    match parse_html_tag_content(t) {
        None => None,
        Some(((name, attrs), rest)) => {
            let rlen = rest.as_str().unicode_len();
            if rlen >= 2 && rest.as_str().get_char(0) == '/' && rest.as_str().get_char(1) == '>' {
                let remaining = rest.as_str().substring_char(2, rlen).to_owned();
                Some((name, attrs, HTMLTagType::SelfClosing, remaining))
            } else {
                None
            }
        },
    }
}

/// Parses an opening tag whose attribute list continues past the line.
pub fn parse_opening_html_tag_start(line: &str) -> (r: Option<
    (String, String, HTMLTagType, String),
>)
    ensures
        match spec_opening_tag_start(line@) {
            Some(((name, attrs), rest)) => r matches Some((n, a, ty, rr)) && n@ == name && a@
                == attrs && ty == HTMLTagType::OpeningStart && rr@ == rest,
            None => r is None,
        },
{
    let llen = line.unicode_len();
    if llen < 1 || line.get_char(0) != '<' {
        return None;
    }
    let t = line.substring_char(1, llen);
    match parse_html_tag_content(t) {
        None => None,
        Some(((name, attrs), rest)) => Some((name, attrs, HTMLTagType::OpeningStart, rest)),
    }
}

/// The end of an opening tag continued from an earlier line: its attribute
/// text and whether the tag closed on this line.
pub open spec fn spec_opening_tag_end(t: Seq<char>) -> ((Seq<char>, HTMLTagType), Seq<char>) {
    let a1 = t.skip(spec_ws_prefix_len(t));
    let l = pred_prefix_len(a1, not_term_pred());
    if l >= 1 && l < a1.len() && a1[l] == '>' {
        ((a1.take(l), HTMLTagType::Opening), a1.skip(l + 1))
    } else if a1.len() >= 1 && a1[0] == '>' {
        ((Seq::<char>::empty(), HTMLTagType::Opening), a1.skip(1))
    } else {
        ((a1, HTMLTagType::OpeningStart), Seq::<char>::empty())
    }
}

/// Parses the end of an opening tag continued from an earlier line.
pub fn parse_opening_html_tag_end(line: &str) -> (r: (String, HTMLTagType, String))
    ensures
        ({
            let ((attrs, ty), rest) = spec_opening_tag_end(line@);
            r.0@ == attrs && r.1 == ty && r.2@ == rest
        }),
{
    let llen = line.unicode_len();
    let w = skip_ws(line, 0);
    let a1 = line.substring_char(w, llen);
    let a1len = llen - w;
    let l = not_term_prefix(a1);
    if l >= 1 && l < a1len && a1.get_char(l) == '>' {
        let attrs = a1.substring_char(0, l).to_owned();
        let rest = a1.substring_char(l + 1, a1len).to_owned();
        (attrs, HTMLTagType::Opening, rest)
    } else if a1len >= 1 && a1.get_char(0) == '>' {
        let rest = a1.substring_char(1, a1len).to_owned();
        (String::new(), HTMLTagType::Opening, rest)
    } else {
        (a1.to_owned(), HTMLTagType::OpeningStart, String::new())
    }
}

/// The end of a self-closing tag continued from an earlier line.
pub open spec fn spec_self_closing_tag_end(t: Seq<char>) -> Option<(Seq<char>, Seq<char>)> {
    let a1 = t.skip(spec_ws_prefix_len(t));
    let l = pred_prefix_len(a1, not_term_pred());
    if l >= 1 && l + 1 < a1.len() && a1[l] == '/' && a1[l + 1] == '>' {
        Some((a1.take(l), a1.skip(l + 2)))
    } else if a1.len() >= 2 && a1[0] == '/' && a1[1] == '>' {
        Some((Seq::<char>::empty(), a1.skip(2)))
    } else {
        None
    }
}

/// Parses the end of a self-closing tag continued from an earlier line.
pub fn parse_self_closing_html_tag_end(line: &str) -> (r: Option<(String, HTMLTagType, String)>)
    ensures
        match spec_self_closing_tag_end(line@) {
            Some((attrs, rest)) => r matches Some((a, ty, rr)) && a@ == attrs && ty
                == HTMLTagType::SelfClosing && rr@ == rest,
            None => r is None,
        },
{
    let llen = line.unicode_len();
    let w = skip_ws(line, 0);
    let a1 = line.substring_char(w, llen);
    let a1len = llen - w;
    let l = not_term_prefix(a1);
    if l >= 1 && l < a1len && a1len - l >= 2 && a1.get_char(l) == '/' && a1.get_char(l + 1)
        == '>' {
        let attrs = a1.substring_char(0, l).to_owned();
        let rest = a1.substring_char(l + 2, a1len).to_owned();
        Some((attrs, HTMLTagType::SelfClosing, rest))
    } else if a1len >= 2 && a1.get_char(0) == '/' && a1.get_char(1) == '>' {
        let rest = a1.substring_char(2, a1len).to_owned();
        Some((String::new(), HTMLTagType::SelfClosing, rest))
    } else {
        None
    }
}

/// Text before the first `<tag` occurrence, and the rest from that tag on.
pub fn parse_up_to_opening_html_tag(line: &str, element_tag: &str) -> (r: Option<
    (String, String),
>)
    ensures
        ({
            let pat = "<"@ + element_tag@;
            match crate::text::spec_find_sub(line@, pat) {
                Some(k) => r matches Some((before, rest)) && before@ == line@.take(k) && rest@
                    == line@.skip(k),
                None => r is None,
            }
        }),
{
    let mut pat = String::new();
    pat.append("<");
    pat.append(element_tag);
    proof {
        reveal_strlit("<");
        assert(pat@.len() > 0);
    }
    let llen = line.unicode_len();
    match crate::text::find_sub(line, pat.as_str()) {
        None => None,
        Some(k) => {
            proof {
                crate::text::lemma_find_sub(line@, pat@);
            }
            let before = line.substring_char(0, k).to_owned();
            let rest = line.substring_char(k, llen).to_owned();
            Some((before, rest))
        },
    }
}

/// A `<tag>` opening with no attributes at the front of `line`: empty
/// attribute text and the rest.
pub fn parse_opening_html_tag_no_attributes(line: &str, element_tag: &str) -> (r: Option<
    (String, String),
>)
    ensures
        ({
            let pat = "<"@ + element_tag@ + ">"@;
            if line@.len() >= pat.len() && line@.take(pat.len() as int) == pat {
                r matches Some((attrs, rest)) && attrs@ == Seq::<char>::empty() && rest@
                    == line@.skip(pat.len() as int)
            } else {
                r is None
            }
        }),
{
    let mut pat = String::new();
    pat.append("<");
    pat.append(element_tag);
    pat.append(">");
    let plen = pat.as_str().unicode_len();
    let llen = line.unicode_len();
    if starts_with_at(line, 0, pat.as_str()) {
        proof {
            assert(line@.take(pat@.len() as int) =~= line@.subrange(0, pat@.len() as int));
        }
        Some((String::new(), line.substring_char(plen, llen).to_owned()))
    } else {
        proof {
            if line@.len() >= pat@.len() && line@.take(pat@.len() as int) == pat@ {
                assert(occurs_at(line@, pat@, 0)) by {
                    assert(line@.subrange(0, pat@.len() as int) =~= line@.take(pat@.len() as int));
                }
            }
        }
        None
    }
}

/// A `<tag attrs>` opening with a non-empty attribute list at the front of
/// `line`: the attribute text between the tag name and `>`, and the rest.
pub open spec fn spec_opening_tag_with_attributes(t: Seq<char>, etag: Seq<char>) -> Option<
    (Seq<char>, Seq<char>),
> {
    let pat = "<"@ + etag;
    if t.len() >= pat.len() && t.take(pat.len() as int) == pat {
        let after = t.skip(pat.len() as int);
        let w = spec_ws_prefix_len(after);
        if w >= 1 {
            let a2 = after.skip(w);
            match find_ix(a2, char_is('>')) {
                Some(g) => Some((a2.take(g), a2.skip(g + 1))),
                None => None,
            }
        } else {
            None
        }
    } else {
        None
    }
}

/// Parses a `<tag attrs>` opening with a non-empty attribute list.
pub fn parse_opening_html_tag_with_attributes(line: &str, element_tag: &str) -> (r: Option<
    (String, String),
>)
    ensures
        match spec_opening_tag_with_attributes(line@, element_tag@) {
            Some((attrs, rest)) => r matches Some((a, rr)) && a@ == attrs && rr@ == rest,
            None => r is None,
        },
{
    let mut pat = String::new();
    pat.append("<");
    pat.append(element_tag);
    let plen = pat.as_str().unicode_len();
    let llen = line.unicode_len();
    if !starts_with_at(line, 0, pat.as_str()) {
        proof {
            if line@.len() >= pat@.len() && line@.take(pat@.len() as int) == pat@ {
                assert(occurs_at(line@, pat@, 0)) by {
                    assert(line@.subrange(0, pat@.len() as int) =~= line@.take(pat@.len() as int));
                }
            }
        }
        return None;
    }
    proof {
        assert(line@.take(pat@.len() as int) =~= line@.subrange(0, pat@.len() as int));
    }
    let after = line.substring_char(plen, llen);
    let afterlen = llen - plen;
    let w = skip_ws(after, 0);
    if w < 1 {
        return None;
    }
    let a2 = after.substring_char(w, afterlen);
    match crate::text::find_char(a2, '>') {
        None => None,
        Some(g) => {
            proof {
                lemma_find_ix(a2@, char_is('>'));
            }
            let attrs = a2.substring_char(0, g).to_owned();
            let rest = a2.substring_char(g + 1, afterlen - w).to_owned();
            Some((attrs, rest))
        },
    }
}

} // verus!
