//! The fenced-code-block processor: the opening line's positional meta
//! fields, body escaping, and the closing fence.
use vstd::prelude::*;
use vstd::string::*;

use crate::parser::LineType;
use crate::text::{
    char_is, digit_pred, digit_prefix, find_ix, is_digit, is_ws, lemma_find_ix, lemma_find_sub,
    lemma_pred_prefix, occurs_at, pred_prefix_len, spec_find_sub, starts_with_at,
};

verus! {

/// ASCII letters, the characters of a bare language token.
pub open spec fn is_alpha(c: char) -> bool {
    ('a' <= c && c <= 'z') || ('A' <= c && c <= 'Z')
}

/// The predicate form of [`is_alpha`].
pub open spec fn alpha_pred() -> spec_fn(char) -> bool {
    |c: char| is_alpha(c)
}

/// Characters that may stand inside a highlight specification: anything
/// but whitespace.
pub open spec fn not_ws_pred() -> spec_fn(char) -> bool {
    |c: char| !is_ws(c)
}

/// The language field: text up to a space, the space consumed, else a run
/// of letters.
pub open spec fn sf_lang(m: Seq<char>) -> (Option<Seq<char>>, Seq<char>) {
    match find_ix(m, char_is(' ')) {
        Some(k) => (Some(m.take(k)), m.skip(k + 1)),
        None => {
            let a = pred_prefix_len(m, alpha_pred());
            if a >= 1 {
                (Some(m.take(a)), m.skip(a))
            } else {
                (None, m)
            }
        },
    }
}

/// The first-line-number field: digits, a trailing space consumed when
/// present.
pub open spec fn sf_num(m: Seq<char>) -> (Option<Seq<char>>, Seq<char>) {
    let d = pred_prefix_len(m, digit_pred());
    if d >= 1 {
        if d < m.len() && m[d] == ' ' {
            (Some(m.take(d)), m.skip(d + 1))
        } else {
            (Some(m.take(d)), m.skip(d))
        }
    } else {
        (None, m)
    }
}

/// The highlight field: a brace-opened run without whitespace, a trailing
/// space consumed when present.
pub open spec fn sf_hl(m: Seq<char>) -> (Option<Seq<char>>, Seq<char>) {
    let h = pred_prefix_len(m, not_ws_pred());
    if m.len() >= 1 && m[0] == '{' && h >= 1 {
        if h < m.len() && m[h] == ' ' {
            (Some(m.take(h)), m.skip(h + 1))
        } else {
            (Some(m.take(h)), m.skip(h))
        }
    } else {
        (None, m)
    }
}

/// The title field: quote-delimited, a trailing space consumed when the
/// closing quote is followed by one.
pub open spec fn sf_title(m: Seq<char>) -> (Option<Seq<char>>, Seq<char>) {
    if m.len() >= 1 && m[0] == '"' {
        let v = m.skip(1);
        match spec_find_sub(v, "\" "@) {
            Some(q) => (Some(v.take(q)), v.skip(q + 2)),
            None => match find_ix(v, char_is('"')) {
                Some(q) => (Some(v.take(q)), v.skip(q + 1)),
                None => (None, m),
            },
        }
    } else {
        (None, m)
    }
}

/// The caption field: bracket-delimited, a trailing space consumed when
/// the closing bracket is followed by one.
pub open spec fn sf_caption(m: Seq<char>) -> (Option<Seq<char>>, Seq<char>) {
    if m.len() >= 1 && m[0] == '[' {
        let v = m.skip(1);
        match spec_find_sub(v, "] "@) {
            Some(q) => (Some(v.take(q)), v.skip(q + 2)),
            None => match find_ix(v, char_is(']')) {
                Some(q) => (Some(v.take(q)), v.skip(q + 1)),
                None => (None, m),
            },
        }
    } else {
        (None, m)
    }
}

/// The parsed meta fields of a fenced-code opening line, positional after
/// the fence: language, first line number, highlight lines, title, caption
/// and the collapse marker.
pub open spec fn spec_fenced_meta(t: Seq<char>) -> Option<
    (
        Option<Seq<char>>,
        Option<Seq<char>>,
        Option<Seq<char>>,
        Option<Seq<char>>,
        Option<Seq<char>>,
        bool,
    ),
> {
    if t.len() >= "```"@.len() && t.take("```"@.len() as int) == "```"@ {
        let m0 = t.skip("```"@.len() as int);
        let (lang, m1) = sf_lang(m0);
        let (first, m2) = sf_num(m1);
        let (hl, m3) = sf_hl(m2);
        let (title, m4) = sf_title(m3);
        let (caption, m5) = sf_caption(m4);
        let collapse = m5.len() >= "<>"@.len() && m5.take("<>"@.len() as int) == "<>"@;
        Some((lang, first, hl, title, caption, collapse))
    } else {
        None
    }
}

/// Length of the run of ASCII letters at the front of `s`.
fn alpha_prefix(s: &str) -> (r: usize)
    ensures
        r == pred_prefix_len(s@, alpha_pred()),
        r <= s@.len(),
{
    let slen = s.unicode_len();
    let mut i: usize = 0;
    while i < slen
        invariant
            i <= slen,
            slen == s@.len(),
            forall|j: int| 0 <= j < i ==> is_alpha(s@[j]),
        decreases slen - i,
    {
        let c = s.get_char(i);
        if !(('a' <= c && c <= 'z') || ('A' <= c && c <= 'Z')) {
            proof {
                lemma_pred_prefix(s@, alpha_pred(), i as int);
            }
            return i;
        }
        i = i + 1;
    }
    proof {
        lemma_pred_prefix(s@, alpha_pred(), slen as int);
    }
    slen
}

/// Length of the run of non-whitespace characters at the front of `s`.
fn not_ws_prefix(s: &str) -> (r: usize)
    ensures
        r == pred_prefix_len(s@, not_ws_pred()),
        r <= s@.len(),
{
    let slen = s.unicode_len();
    let mut i: usize = 0;
    while i < slen
        invariant
            i <= slen,
            slen == s@.len(),
            forall|j: int| 0 <= j < i ==> !is_ws(s@[j]),
        decreases slen - i,
    {
        let c = s.get_char(i);
        if c == ' ' || c == '\t' || c == '\r' || c == '\n' {
            proof {
                lemma_pred_prefix(s@, not_ws_pred(), i as int);
            }
            return i;
        }
        i = i + 1;
    }
    proof {
        lemma_pred_prefix(s@, not_ws_pred(), slen as int);
    }
    slen
}

fn fenced_lang(m: &str) -> (r: (Option<String>, String))
    ensures
        ({
            let (f, rest) = sf_lang(m@);
            opt_str_eq(r.0, f) && r.1@ == rest
        }),
{
    let mlen = m.unicode_len();
    match crate::text::find_char(m, ' ') {
        Some(k) => {
            proof {
                lemma_find_ix(m@, char_is(' '));
            }
            (Some(m.substring_char(0, k).to_owned()), m.substring_char(k + 1, mlen).to_owned())
        },
        None => {
            let a = alpha_prefix(m);
            if a >= 1 {
                (Some(m.substring_char(0, a).to_owned()), m.substring_char(a, mlen).to_owned())
            } else {
                (None, m.to_owned())
            }
        },
    }
}

fn fenced_num(m: &str) -> (r: (Option<String>, String))
    ensures
        ({
            let (f, rest) = sf_num(m@);
            opt_str_eq(r.0, f) && r.1@ == rest
        }),
{
    let mlen = m.unicode_len();
    let d = digit_prefix(m);
    if d >= 1 {
        if d < mlen && m.get_char(d) == ' ' {
            (Some(m.substring_char(0, d).to_owned()), m.substring_char(d + 1, mlen).to_owned())
        } else {
            (Some(m.substring_char(0, d).to_owned()), m.substring_char(d, mlen).to_owned())
        }
    } else {
        (None, m.to_owned())
    }
}

fn fenced_hl(m: &str) -> (r: (Option<String>, String))
    ensures
        ({
            let (f, rest) = sf_hl(m@);
            opt_str_eq(r.0, f) && r.1@ == rest
        }),
{
    let mlen = m.unicode_len();
    let h = not_ws_prefix(m);
    if mlen >= 1 && m.get_char(0) == '{' && h >= 1 {
        if h < mlen && m.get_char(h) == ' ' {
            (Some(m.substring_char(0, h).to_owned()), m.substring_char(h + 1, mlen).to_owned())
        } else {
            (Some(m.substring_char(0, h).to_owned()), m.substring_char(h, mlen).to_owned())
        }
    } else {
        (None, m.to_owned())
    }
}

fn fenced_title(m: &str) -> (r: (Option<String>, String))
    ensures
        ({
            let (f, rest) = sf_title(m@);
            opt_str_eq(r.0, f) && r.1@ == rest
        }),
{
    let mlen = m.unicode_len();
    if mlen >= 1 && m.get_char(0) == '"' {
        let v = m.substring_char(1, mlen);
        let vlen = mlen - 1;
        proof {
            reveal_strlit("\" ");
        }
        match crate::text::find_sub(v, "\" ") {
            Some(q) => {
                proof {
                    lemma_find_sub(v@, "\" "@);
                }
                (Some(v.substring_char(0, q).to_owned()), v.substring_char(q + 2, vlen).to_owned())
            },
            None => {
                match crate::text::find_char(v, '"') {
                    Some(q) => {
                        proof {
                            lemma_find_ix(v@, char_is('"'));
                        }
                        (
                            Some(v.substring_char(0, q).to_owned()),
                            v.substring_char(q + 1, vlen).to_owned(),
                        )
                    },
                    None => (None, m.to_owned()),
                }
            },
        }
    } else {
        (None, m.to_owned())
    }
}

fn fenced_caption(m: &str) -> (r: (Option<String>, String))
    ensures
        ({
            let (f, rest) = sf_caption(m@);
            opt_str_eq(r.0, f) && r.1@ == rest
        }),
{
    let mlen = m.unicode_len();
    if mlen >= 1 && m.get_char(0) == '[' {
        let v = m.substring_char(1, mlen);
        let vlen = mlen - 1;
        proof {
            reveal_strlit("] ");
        }
        match crate::text::find_sub(v, "] ") {
            Some(q) => {
                proof {
                    lemma_find_sub(v@, "] "@);
                }
                (Some(v.substring_char(0, q).to_owned()), v.substring_char(q + 2, vlen).to_owned())
            },
            None => {
                match crate::text::find_char(v, ']') {
                    Some(q) => {
                        proof {
                            lemma_find_ix(v@, char_is(']'));
                        }
                        (
                            Some(v.substring_char(0, q).to_owned()),
                            v.substring_char(q + 1, vlen).to_owned(),
                        )
                    },
                    None => (None, m.to_owned()),
                }
            },
        }
    } else {
        (None, m.to_owned())
    }
}

/// Parses the meta fields of a fenced-code opening line.
pub fn parse_fenced_code_block_first_line(line: &str) -> (r: Option<
    (Option<String>, Option<String>, Option<String>, Option<String>, Option<String>, bool),
>)
    ensures
        match spec_fenced_meta(line@) {
            Some((lang, first, hl, title, caption, collapse)) => r matches Some(
                (rl, rf, rh, rt, rc, rco),
            ) && opt_str_eq(rl, lang) && opt_str_eq(rf, first) && opt_str_eq(rh, hl) && opt_str_eq(
                rt,
                title,
            ) && opt_str_eq(rc, caption) && rco == collapse,
            None => r is None,
        },
{
    let llen = line.unicode_len();
    if !starts_with_at(line, 0, "```") {
        proof {
            if line@.len() >= "```"@.len() && line@.take("```"@.len() as int) == "```"@ {
                assert(occurs_at(line@, "```"@, 0)) by {
                    assert(line@.subrange(0, "```"@.len() as int) =~= line@.take(
                        "```"@.len() as int,
                    ));
                }
            }
        }
        return None;
    }
    proof {
        assert(line@.take("```"@.len() as int) =~= line@.subrange(0, "```"@.len() as int));
    }
    let fence_len = "```".unicode_len();
    let m0 = line.substring_char(fence_len, llen);
    let (lang, m1) = fenced_lang(m0);
    let (first, m2) = fenced_num(m1.as_str());
    let (hl, m3) = fenced_hl(m2.as_str());
    let (title, m4) = fenced_title(m3.as_str());
    let (caption, m5) = fenced_caption(m4.as_str());
    let collapse = starts_with_at(m5.as_str(), 0, "<>");
    proof {
        if m5@.len() >= "<>"@.len() && m5@.take("<>"@.len() as int) == "<>"@ {
            assert(occurs_at(m5@, "<>"@, 0)) by {
                assert(m5@.subrange(0, "<>"@.len() as int) =~= m5@.take("<>"@.len() as int));
            }
        }
        if occurs_at(m5@, "<>"@, 0) {
            assert(m5@.take("<>"@.len() as int) =~= m5@.subrange(0, "<>"@.len() as int));
        }
    }
    Some((lang, first, hl, title, caption, collapse))
}

/// An optional string equals an optional character sequence.
pub open spec fn opt_str_eq(r: Option<String>, s: Option<Seq<char>>) -> bool {
    match r {
        Some(v) => s matches Some(w) && v@ == w,
        None => s is None,
    }
}

/// The generated opening markup of a fenced code block: one attribute line
/// per present meta field, ending with the opened code attribute.
pub open spec fn spec_fenced_first_markup(t: Seq<char>) -> Option<Seq<char>> {
    match spec_fenced_meta(t) {
        None => None,
        Some((lang, first, hl, title, caption, collapse)) => Some(
            spec_fenced_assemble(lang, first, hl, title, caption, collapse),
        ),
    }
}

/// The markup assembled from present meta fields.
pub open spec fn spec_fenced_assemble(
    lang: Option<Seq<char>>,
    first: Option<Seq<char>>,
    hl: Option<Seq<char>>,
    title: Option<Seq<char>>,
    caption: Option<Seq<char>>,
    collapse: bool,
) -> Seq<char> {
    "<CodeFragment\n  client:visible\n  set:html"@ + (match lang {
        Some(v) => "\n  language=\""@ + v + "\""@,
        None => Seq::<char>::empty(),
    }) + (match first {
        Some(v) => "\n  firstLine={"@ + v + "}"@,
        None => Seq::<char>::empty(),
    }) + (match hl {
        Some(v) => "\n  highlightLines={`"@ + v + "`}"@,
        None => Seq::<char>::empty(),
    }) + (match title {
        Some(v) => "\n  title=\""@ + v + "\""@,
        None => Seq::<char>::empty(),
    }) + (match caption {
        Some(v) => "\n  caption=\""@ + v + "\""@,
        None => Seq::<char>::empty(),
    }) + (if collapse {
        "\n  collapse"@
    } else {
        Seq::<char>::empty()
    }) + "\n  code={`"@
}

/// The view of an optional string.
pub open spec fn opt_view(o: Option<String>) -> Option<Seq<char>> {
    match o {
        Some(v) => Some(v@),
        None => None,
    }
}

fn append_wrapped(m: &mut String, pre: &str, v: &str, post: &str)
    ensures
        final(m)@ == old(m)@ + pre@ + v@ + post@,
{
    m.append(pre);
    m.append(v);
    m.append(post);
}

#[verifier::rlimit(100)]
#[verifier::spinoff_prover]
fn assemble_fenced_markup(
    lang: &Option<String>,
    first: &Option<String>,
    hl: &Option<String>,
    title: &Option<String>,
    caption: &Option<String>,
    collapse: bool,
) -> (m: String)
    ensures
        m@ == spec_fenced_assemble(
            opt_view(*lang),
            opt_view(*first),
            opt_view(*hl),
            opt_view(*title),
            opt_view(*caption),
            collapse,
        ),
{
    let ghost mut acc: Seq<char> = "<CodeFragment\n  client:visible\n  set:html"@;
    let mut m = String::new();
    m.append("<CodeFragment\n  client:visible\n  set:html");
    assert(m@ == acc);
    match lang {
        Some(v) => {
            append_wrapped(&mut m, "\n  language=\"", v.as_str(), "\"");
            proof {
                acc = acc + ("\n  language=\""@ + v@ + "\""@);
            }
            assert(m@ == acc);
        },
        None => {},
    }
    match first {
        Some(v) => {
            append_wrapped(&mut m, "\n  firstLine={", v.as_str(), "}");
            proof {
                acc = acc + ("\n  firstLine={"@ + v@ + "}"@);
            }
            assert(m@ == acc);
        },
        None => {},
    }
    match hl {
        Some(v) => {
            append_wrapped(&mut m, "\n  highlightLines={`", v.as_str(), "`}");
            proof {
                acc = acc + ("\n  highlightLines={`"@ + v@ + "`}"@);
            }
            assert(m@ == acc);
        },
        None => {},
    }
    match title {
        Some(v) => {
            append_wrapped(&mut m, "\n  title=\"", v.as_str(), "\"");
            proof {
                acc = acc + ("\n  title=\""@ + v@ + "\""@);
            }
            assert(m@ == acc);
        },
        None => {},
    }
    match caption {
        Some(v) => {
            append_wrapped(&mut m, "\n  caption=\"", v.as_str(), "\"");
            proof {
                acc = acc + ("\n  caption=\""@ + v@ + "\""@);
            }
            assert(m@ == acc);
        },
        None => {},
    }
    if collapse {
        m.append("\n  collapse");
        proof {
            acc = acc + "\n  collapse"@;
        }
        assert(m@ == acc);
    }
    m.append("\n  code={`");
    proof {
        acc = acc + "\n  code={`"@;
    }
    assert(m@ == acc);
    proof {
        assert(acc =~= spec_fenced_assemble(
            opt_view(*lang),
            opt_view(*first),
            opt_view(*hl),
            opt_view(*title),
            opt_view(*caption),
            collapse,
        ));
    }
    m
}

/// Recognizes a fenced-code opening line and forms its markup.
pub fn form_fenced_code_block_first_line(line: &str) -> (r: Option<(String, LineType, usize)>)
    ensures
        match spec_fenced_first_markup(line@) {
            Some(markup) => r matches Some((m, t, d)) && m@ == markup && t
                == LineType::FencedCodeBlockOpen && d == 0,
            None => r is None,
        },
{
    match parse_fenced_code_block_first_line(line) {
        None => None,
        Some((lang, first, hl, title, caption, collapse)) => {
            let m = assemble_fenced_markup(&lang, &first, &hl, &title, &caption, collapse);
            Some((m, LineType::FencedCodeBlockOpen, 0))
        },
    }
}

/// Whether `line` is a closing fence.
pub open spec fn spec_fence_close(t: Seq<char>) -> bool {
    t.len() >= "```"@.len() && t.take("```"@.len() as int) == "```"@
}

/// Recognizes the closing fence of a code block.
pub fn parse_fenced_code_block_last_line(line: &str) -> (r: bool)
    ensures
        r == spec_fence_close(line@),
{
    let r = starts_with_at(line, 0, "```");
    proof {
        if r {
            assert(line@.take("```"@.len() as int) =~= line@.subrange(0, "```"@.len() as int));
        } else {
            if line@.len() >= "```"@.len() && line@.take("```"@.len() as int) == "```"@ {
                assert(occurs_at(line@, "```"@, 0)) by {
                    assert(line@.subrange(0, "```"@.len() as int) =~= line@.take(
                        "```"@.len() as int,
                    ));
                }
            }
        }
    }
    r
}

/// Forms the closing markup of a fenced code block.
pub fn form_fenced_code_block_last_line(line: &str) -> (r: Option<(String, LineType, usize)>)
    ensures
        if spec_fence_close(line@) {
            r matches Some((m, t, d)) && m@ == "  `} />"@ && t == LineType::FencedCodeBlock && d
                == 0
        } else {
            r is None
        },
{
    if parse_fenced_code_block_last_line(line) {
        Some(("  `} />".to_owned(), LineType::FencedCodeBlock, 0))
    } else {
        None
    }
}

} // verus!
