//! The heading processor: level counting, typographic substitution, widow
//! prevention and slug derivation.
use vstd::prelude::*;
use vstd::string::*;

use crate::parser::LineType;
use crate::parser::tags::{parse_self_closing_html_tag, spec_self_closing_tag, spec_tag_content};
use crate::text::{
    char_is, find_char, find_ix, is_ws, lemma_find_ix, lemma_find_ix_none, lemma_find_ix_some,
    lemma_pred_prefix_bounds, lemma_ws_prefix_bounds, pred_prefix_len, push_char, skip_ws,
    spec_dec_str, spec_trim_end, spec_ws_prefix_len, trim_end, usize_to_string,
};

verus! {

/// What `deunicode::deunicode` returns for a given character sequence: its
/// closest-ASCII transliteration.
pub uninterp spec fn deunicode_of(s: Seq<char>) -> Seq<char>;

/// Relies on `deunicode::deunicode`: the result is the ASCII transliteration
/// of the input; its documentation guarantees the output is restricted to
/// ASCII and that every ASCII character maps to itself.
#[verifier::external_body]
fn deunicode_str(s: &str) -> (r: String)
    ensures
        r@ == deunicode_of(s@),
        forall|i: int| 0 <= i < r@.len() ==> r@[i] <= '\u{7f}',
        (forall|i: int| 0 <= i < s@.len() ==> s@[i] <= '\u{7f}') ==> r@ == s@,
{
    deunicode::deunicode(s)
}

/// Characters mapped to a single hyphen in slugs.
pub open spec fn is_slug_replace(c: char) -> bool {
    c == ' ' || c == '-' || c == '/' || c == '.' || c == ',' || c == '$'
}

/// Characters dropped from slugs.
pub open spec fn is_slug_remove(c: char) -> bool {
    c == '?' || c == '\'' || c == '`' || c == ':' || c == '[' || c == ']' || c == '(' || c == ')'
}

/// ASCII lower-casing of one character.
pub open spec fn lower_char(c: char) -> char {
    if 'A' <= c && c <= 'Z' {
        ((c as u8) + 32) as char
    } else {
        c
    }
}

/// The slug of an already-transliterated text: separator runs collapse to
/// one hyphen, dropped punctuation vanishes, the rest is lower-cased.
/// `last_rep` records whether the previous character was collapsed, so runs
/// produce no duplicate hyphen and no leading hyphen.
pub open spec fn spec_slug_ascii(s: Seq<char>, last_rep: bool) -> Seq<char>
    decreases s.len(),
{
    if s.len() == 0 {
        Seq::empty()
    } else {
        let c = s[0];
        let rest = s.drop_first();
        if is_slug_replace(c) {
            if !last_rep {
                seq!['-'] + spec_slug_ascii(rest, true)
            } else {
                spec_slug_ascii(rest, true)
            }
        } else if is_slug_remove(c) {
            spec_slug_ascii(rest, last_rep)
        } else {
            seq![lower_char(c)] + spec_slug_ascii(rest, false)
        }
    }
}

/// Splits `s` around its first embedded self-closing tag: the text before
/// the tag, and the text after it.
pub open spec fn spec_remove_tag_split(s: Seq<char>) -> Option<(Seq<char>, Seq<char>)> {
    match find_ix(s, char_is('<')) {
        None => None,
        Some(k) => match spec_self_closing_tag(s.skip(k)) {
            Some((nm_at, rest)) => Some((s.take(k), rest)),
            None => None,
        },
    }
}

pub proof fn lemma_tag_split_lens(s: Seq<char>)
    ensures
        match spec_remove_tag_split(s) {
            Some((initial, fin)) => initial.len() < s.len() && fin.len() < s.len(),
            None => true,
        },
{
    lemma_find_ix(s, char_is('<'));
    match find_ix(s, char_is('<')) {
        None => {},
        Some(k) => {
            let t = s.skip(k);
            if t.len() >= 1 && t[0] == '<' {
                let c = t.skip(1);
                lemma_pred_prefix_bounds(c, crate::parser::tags::not_term_pred());
            }
        },
    }
}

/// The slug of a title: embedded self-closing tags are stripped first,
/// recursively, and the remaining text is transliterated and slugged.
pub open spec fn spec_slugify(s: Seq<char>) -> Seq<char>
    decreases s.len(),
    via spec_slugify_decreases
{
    match spec_remove_tag_split(s) {
        Some((initial, fin)) => spec_slugify(initial) + spec_slugify(fin),
        None => spec_slug_ascii(deunicode_of(s), true),
    }
}

#[via_fn]
proof fn spec_slugify_decreases(s: Seq<char>) {
    lemma_tag_split_lens(s);
}

/// Splits `line` around its first embedded self-closing tag.
pub fn remove_html_tags(line: &str) -> (r: Option<(String, String)>)
    ensures
        match spec_remove_tag_split(line@) {
            Some((initial, fin)) => r matches Some((i, f)) && i@ == initial && f@ == fin,
            None => r is None,
        },
{
    let llen = line.unicode_len();
    match find_char(line, '<') {
        None => None,
        Some(k) => {
            proof {
                lemma_find_ix(line@, char_is('<'));
            }
            let t = line.substring_char(k, llen);
            match parse_self_closing_html_tag(t) {
                Some((name, attrs, ty, rest)) => {
                    let initial = line.substring_char(0, k).to_owned();
                    Some((initial, rest))
                },
                None => None,
            }
        },
    }
}

/// The raw slug accumulation over tag-stripped segments; a trailing
/// separator may leave a trailing hyphen here, trimmed by the caller.
fn slugify_raw(title: &str) -> (r: String)
    ensures
        r@ == spec_slugify(title@),
    decreases title@.len(),
{
    proof {
        lemma_tag_split_lens(title@);
    }
    match remove_html_tags(title) {
        Some((initial, fin)) => {
            let mut a = slugify_raw(initial.as_str());
            let b = slugify_raw(fin.as_str());
            a.append(b.as_str());
            a
        },
        None => {
            let d = deunicode_str(title);
            let dlen = d.as_str().unicode_len();
            let mut out = String::new();
            let mut last_rep = true;
            let mut i: usize = 0;
            proof {
                assert(d@.skip(0) =~= d@);
            }
            while i < dlen
                invariant
                    i <= dlen,
                    dlen == d@.len(),
                    out@ + spec_slug_ascii(d@.skip(i as int), last_rep) == spec_slug_ascii(
                        d@,
                        true,
                    ),
                    d@ == deunicode_of(title@),
                    forall|j: int| 0 <= j < d@.len() ==> d@[j] <= '\u{7f}',
                    spec_remove_tag_split(title@) is None,
                decreases dlen - i,
            {
                let c = d.as_str().get_char(i);
                proof {
                    assert(d@.skip(i as int).drop_first() =~= d@.skip(i + 1));
                }
                if c == ' ' || c == '-' || c == '/' || c == '.' || c == ',' || c == '$' {
                    if !last_rep {
                        push_char(&mut out, '-');
                        last_rep = true;
                    }
                } else if c == '?' || c == '\'' || c == '`' || c == ':' || c == '[' || c == ']'
                    || c == '(' || c == ')' {
                } else {
                    let lc: char = if 'A' <= c && c <= 'Z' {
                        ((c as u8) + 32) as char
                    } else {
                        c
                    };
                    push_char(&mut out, lc);
                    last_rep = false;
                }
                i = i + 1;
            }
            proof {
                assert(d@.skip(dlen as int) =~= Seq::<char>::empty());
            }
            out
        },
    }
}

/// The sequence with its trailing hyphens removed.
pub open spec fn spec_trim_hyphens(s: Seq<char>) -> Seq<char>
    decreases s.len(),
{
    if s.len() > 0 && s.last() == '-' {
        spec_trim_hyphens(s.drop_last())
    } else {
        s
    }
}

proof fn lemma_trim_hyphens_take(s: Seq<char>, e: int)
    requires
        0 <= e <= s.len(),
        forall|j: int| e <= j < s.len() ==> s[j] == '-',
        e > 0 ==> s[e - 1] != '-',
    ensures
        spec_trim_hyphens(s) == s.take(e),
    decreases s.len(),
{
    if s.len() > 0 && s.last() == '-' {
        assert(e < s.len());
        lemma_trim_hyphens_take(s.drop_last(), e);
        assert(s.drop_last().take(e) =~= s.take(e));
    } else {
        assert(e == s.len());
        assert(s.take(e) =~= s);
    }
}

proof fn lemma_trim_hyphens_props(s: Seq<char>)
    ensures
        spec_trim_hyphens(s).len() <= s.len(),
        spec_trim_hyphens(s) == s.take(spec_trim_hyphens(s).len() as int),
        spec_trim_hyphens(s).len() > 0 ==> spec_trim_hyphens(s).last() != '-',
    decreases s.len(),
{
    if s.len() > 0 && s.last() == '-' {
        lemma_trim_hyphens_props(s.drop_last());
        assert(s.drop_last().take(spec_trim_hyphens(s).len() as int) =~= s.take(
            spec_trim_hyphens(s).len() as int,
        ));
    } else {
        assert(s.take(s.len() as int) =~= s);
    }
}

/// The identifier derived from a title: the raw slug with any trailing
/// hyphen removed, so a title ending in a separator leaves none.
pub open spec fn spec_slug_id(t: Seq<char>) -> Seq<char> {
    spec_trim_hyphens(spec_slugify(t))
}

/// Derives the URL-safe identifier of a heading title.
pub fn slugify_title(title: &str) -> (r: String)
    ensures
        r@ == spec_slug_id(title@),
{
    let raw = slugify_raw(title);
    let rlen = raw.as_str().unicode_len();
    let mut e: usize = rlen;
    while e > 0
        invariant
            e <= rlen,
            rlen == raw@.len(),
            raw@ == spec_slugify(title@),
            forall|j: int| e <= j < rlen ==> raw@[j] == '-',
        decreases e,
    {
        if raw.as_str().get_char(e - 1) != '-' {
            proof {
                lemma_trim_hyphens_take(raw@, e as int);
            }
            return raw.as_str().substring_char(0, e).to_owned();
        }
        e = e - 1;
    }
    proof {
        lemma_trim_hyphens_take(raw@, 0);
        assert(raw@.take(0) =~= Seq::<char>::empty());
    }
    String::new()
}

/// A slug is well formed: no space, no uppercase ASCII letter, and no two
/// adjacent hyphens.
pub open spec fn slug_ok(id: Seq<char>) -> bool {
    (forall|i: int| 0 <= i < id.len() ==> id[i] != ' ' && !('A' <= id[i] && id[i] <= 'Z')) && (
    forall|i: int|
        0 <= i < id.len() - 1 ==> !((#[trigger] id[i]) == '-' && id[i + 1] == '-'))
}

proof fn lemma_slug_ascii_wf(s: Seq<char>, last_rep: bool)
    ensures
        slug_ok(spec_slug_ascii(s, last_rep)),
        last_rep ==> (spec_slug_ascii(s, last_rep).len() > 0 ==> spec_slug_ascii(s, last_rep)[0]
            != '-'),
    decreases s.len(),
{
    if s.len() > 0 {
        let c = s[0];
        let rest = s.drop_first();
        if is_slug_replace(c) {
            lemma_slug_ascii_wf(rest, true);
        } else if is_slug_remove(c) {
            lemma_slug_ascii_wf(rest, last_rep);
        } else {
            lemma_slug_ascii_wf(rest, false);
            assert(lower_char(c) != ' ' && !('A' <= lower_char(c) && lower_char(c) <= 'Z')
                && lower_char(c) != '-');
        }
    }
}

proof fn lemma_slug_ok_concat(a: Seq<char>, b: Seq<char>)
    requires
        slug_ok(a),
        slug_ok(b),
        b.len() > 0 ==> b[0] != '-',
    ensures
        slug_ok(a + b),
{
    let ab = a + b;
    assert forall|i: int| 0 <= i < ab.len() implies ab[i] != ' ' && !('A' <= ab[i] && ab[i]
        <= 'Z') by {
        if i < a.len() {
            assert(ab[i] == a[i]);
        } else {
            assert(ab[i] == b[i - a.len()]);
        }
    }
    assert forall|i: int| 0 <= i < ab.len() - 1 implies !((#[trigger] ab[i]) == '-' && ab[i + 1]
        == '-') by {
        if i + 1 < a.len() {
            assert(ab[i] == a[i] && ab[i + 1] == a[i + 1]);
        } else if i >= a.len() {
            assert(ab[i] == b[i - a.len()] && ab[i + 1] == b[i + 1 - a.len()]);
        } else {
            assert(ab[i + 1] == b[0]);
        }
    }
}

/// Law: for every title, the derived identifier holds no space, no
/// uppercase ASCII letter, and no run of two adjacent hyphens; and it
/// neither starts nor ends with a hyphen.
pub proof fn lemma_slugify_well_formed(title: Seq<char>)
    ensures
        slug_ok(spec_slug_id(title)),
        spec_slug_id(title).len() > 0 ==> spec_slug_id(title)[0] != '-',
        spec_slug_id(title).len() > 0 ==> spec_slug_id(title).last() != '-',
    decreases title.len(),
{
    lemma_slugify_raw_well_formed(title);
    lemma_trim_hyphens_props(spec_slugify(title));
    let raw = spec_slugify(title);
    let id = spec_slug_id(title);
    assert(id == raw.take(id.len() as int));
    assert(forall|i: int| 0 <= i < id.len() ==> id[i] == raw[i]);
}

/// The raw slug accumulation is well formed and never starts with a
/// hyphen.
proof fn lemma_slugify_raw_well_formed(title: Seq<char>)
    ensures
        slug_ok(spec_slugify(title)),
        spec_slugify(title).len() > 0 ==> spec_slugify(title)[0] != '-',
    decreases title.len(),
{
    lemma_tag_split_lens(title);
    match spec_remove_tag_split(title) {
        Some((initial, fin)) => {
            lemma_slugify_raw_well_formed(initial);
            lemma_slugify_raw_well_formed(fin);
            lemma_slug_ok_concat(spec_slugify(initial), spec_slugify(fin));
            if spec_slugify(title).len() > 0 {
                if spec_slugify(initial).len() > 0 {
                    assert(spec_slugify(title)[0] == spec_slugify(initial)[0]);
                } else {
                    assert(spec_slugify(title) =~= spec_slugify(fin));
                }
            }
        },
        None => {
            lemma_slug_ascii_wf(deunicode_of(title), true);
        },
    }
}

/// The typographic per-character pass: hyphens become non-breaking hyphen
/// entities, and quotes become directional escapes, opening after a space
/// and closing otherwise.
pub open spec fn spec_heading_chars(s: Seq<char>, sp: bool) -> Seq<char>
    decreases s.len(),
{
    if s.len() == 0 {
        Seq::empty()
    } else {
        let c = s[0];
        let rest = s.drop_first();
        if c == '-' {
            "&#x2011;"@ + spec_heading_chars(rest, sp)
        } else if c == ' ' {
            seq![' '] + spec_heading_chars(rest, true)
        } else if c == '\'' {
            (if sp {
                "\\u2018"@
            } else {
                "\\u2019"@
            }) + spec_heading_chars(rest, false)
        } else if c == '"' {
            (if sp {
                "\\u201c"@
            } else {
                "\\u201d"@
            }) + spec_heading_chars(rest, false)
        } else {
            seq![c] + spec_heading_chars(rest, false)
        }
    }
}

/// The characters the typographic pass rewrites.
pub open spec fn is_typo_char(c: char) -> bool {
    c == '-' || c == '\'' || c == '"'
}

/// The predicate form of [`is_typo_char`].
pub open spec fn typo_pred() -> spec_fn(char) -> bool {
    |c: char| is_typo_char(c)
}

/// The typographic substitution over a whole heading: text before the first
/// rewritten character is kept verbatim, and when that character follows a
/// space the space re-enters the scan so the quote opens.
pub open spec fn spec_format_heading(s: Seq<char>) -> Seq<char> {
    match find_ix(s, typo_pred()) {
        None => s,
        Some(f) => {
            if f == 0 {
                if s[0] == '"' {
                    "\\u201c"@ + spec_heading_chars(s.skip(1), false)
                } else if s[0] == '\'' {
                    "\\u2018"@ + spec_heading_chars(s.skip(1), false)
                } else {
                    spec_heading_chars(s, false)
                }
            } else if s[f - 1] == ' ' {
                s.take(f - 1) + spec_heading_chars(s.skip(f - 1), false)
            } else {
                s.take(f) + spec_heading_chars(s.skip(f), false)
            }
        },
    }
}

/// The typographic per-character pass from a given start state.
fn format_heading_tail(s: &str, sp0: bool) -> (r: String)
    ensures
        r@ == spec_heading_chars(s@, sp0),
{
    let slen = s.unicode_len();
    let mut out = String::new();
    let mut sp = sp0;
    let mut i: usize = 0;
    proof {
        assert(s@.skip(0) =~= s@);
    }
    while i < slen
        invariant
            i <= slen,
            slen == s@.len(),
            out@ + spec_heading_chars(s@.skip(i as int), sp) == spec_heading_chars(s@, sp0),
        decreases slen - i,
    {
        let c = s.get_char(i);
        proof {
            assert(s@.skip(i as int).drop_first() =~= s@.skip(i + 1));
        }
        if c == '-' {
            out.append("&#x2011;");
        } else if c == ' ' {
            push_char(&mut out, ' ');
            sp = true;
        } else if c == '\'' {
            if sp {
                out.append("\\u2018");
            } else {
                out.append("\\u2019");
            }
            sp = false;
        } else if c == '"' {
            if sp {
                out.append("\\u201c");
            } else {
                out.append("\\u201d");
            }
            sp = false;
        } else {
            push_char(&mut out, c);
            sp = false;
        }
        i = i + 1;
    }
    proof {
        assert(s@.skip(slen as int) =~= Seq::<char>::empty());
    }
    out
}

/// Applies the typographic substitution to a heading.
pub fn format_heading(heading: &str) -> (r: String)
    ensures
        r@ == spec_format_heading(heading@),
{
    let hlen = heading.unicode_len();
    let mut f: usize = 0;
    let mut found = false;
    while f < hlen && !found
        invariant
            f <= hlen,
            hlen == heading@.len(),
            !found ==> forall|j: int| 0 <= j < f ==> !is_typo_char(heading@[j]),
            found ==> f < hlen && is_typo_char(heading@[f as int]) && (forall|j: int|
                0 <= j < f ==> !is_typo_char(heading@[j])),
        decreases hlen - f, if found { 0int } else { 1int },
    {
        let c = heading.get_char(f);
        if c == '-' || c == '\'' || c == '"' {
            found = true;
        } else {
            f = f + 1;
        }
    }
    if !found {
        proof {
            lemma_find_ix_none(heading@, typo_pred());
        }
        return heading.to_owned();
    }
    proof {
        lemma_find_ix_some(heading@, typo_pred(), f as int);
    }
    if f == 0 {
        let c0 = heading.get_char(0);
        if c0 == '"' {
            let mut out = String::new();
            out.append("\\u201c");
            let tail = format_heading_tail(heading.substring_char(1, hlen), false);
            out.append(tail.as_str());
            out
        } else if c0 == '\'' {
            let mut out = String::new();
            out.append("\\u2018");
            let tail = format_heading_tail(heading.substring_char(1, hlen), false);
            out.append(tail.as_str());
            out
        } else {
            format_heading_tail(heading, false)
        }
    } else if heading.get_char(f - 1) == ' ' {
        let mut out = heading.substring_char(0, f - 1).to_owned();
        let tail = format_heading_tail(heading.substring_char(f - 1, hlen), false);
        out.append(tail.as_str());
        out
    } else {
        let mut out = heading.substring_char(0, f).to_owned();
        let tail = format_heading_tail(heading.substring_char(f, hlen), false);
        out.append(tail.as_str());
        out
    }
}

/// Index of the last space of `s`, if any.
pub open spec fn spec_last_space(s: Seq<char>) -> Option<int>
    decreases s.len(),
{
    if s.len() == 0 {
        None
    } else if s.last() == ' ' {
        Some(s.len() - 1)
    } else {
        spec_last_space(s.drop_last())
    }
}

proof fn lemma_last_space_at(s: Seq<char>, p: int)
    requires
        0 <= p < s.len(),
        s[p] == ' ',
        forall|j: int| p < j < s.len() ==> s[j] != ' ',
    ensures
        spec_last_space(s) == Some(p),
    decreases s.len(),
{
    if s.last() != ' ' {
        lemma_last_space_at(s.drop_last(), p);
    }
}

proof fn lemma_last_space_none(s: Seq<char>)
    requires
        forall|j: int| 0 <= j < s.len() ==> s[j] != ' ',
    ensures
        spec_last_space(s) is None,
    decreases s.len(),
{
    if s.len() > 0 {
        lemma_last_space_none(s.drop_last());
    }
}

/// Widow prevention over a heading: when the word after the last space has
/// fewer than five characters, that space becomes a non-breaking-space
/// escape; the typographic pass applies either way.
pub open spec fn spec_format_heading_widows(s: Seq<char>) -> Seq<char> {
    match spec_last_space(s) {
        None => spec_format_heading(s),
        Some(p) => {
            let after = s.skip(p + 1);
            if after.len() < 5 {
                spec_format_heading(s.take(p)) + "\\u00a0"@ + spec_format_heading(after)
            } else {
                spec_format_heading(s)
            }
        },
    }
}

/// Applies widow prevention and the typographic substitution to a heading.
pub fn format_heading_widows(heading: &str) -> (r: String)
    ensures
        r@ == spec_format_heading_widows(heading@),
{
    let hlen = heading.unicode_len();
    let mut e: usize = hlen;
    while e > 0
        invariant
            e <= hlen,
            hlen == heading@.len(),
            forall|j: int| e <= j < hlen ==> heading@[j] != ' ',
        decreases e,
    {
        if heading.get_char(e - 1) == ' ' {
            proof {
                lemma_last_space_at(heading@, e - 1);
            }
            let after = heading.substring_char(e, hlen);
            if hlen - e < 5 {
                let mut out = format_heading(heading.substring_char(0, e - 1));
                out.append("\\u00a0");
                let fa = format_heading(after);
                out.append(fa.as_str());
                return out;
            } else {
                return format_heading(heading);
            }
        }
        e = e - 1;
    }
    proof {
        lemma_last_space_none(heading@);
    }
    format_heading(heading)
}

/// The markup of code spans in heading text: each span becomes a `<code>`
/// element, the rest passes through.
pub open spec fn spec_code_html(s: Seq<char>) -> Seq<char>
    decreases s.len(),
    via spec_code_html_decreases
{
    match find_ix(s, char_is('`')) {
        None => s,
        Some(k) => {
            let rest1 = s.skip(k + 1);
            match find_ix(rest1, char_is('`')) {
                None => s,
                Some(m) => s.take(k) + "<code>"@ + rest1.take(m) + "</code>"@ + spec_code_html(
                    rest1.skip(m + 1),
                ),
            }
        },
    }
}

#[via_fn]
proof fn spec_code_html_decreases(s: Seq<char>) {
    lemma_find_ix(s, char_is('`'));
    match find_ix(s, char_is('`')) {
        Some(k) => {
            lemma_find_ix(s.skip(k + 1), char_is('`'));
        },
        None => {},
    }
}

/// Rewrites every backtick code span of `input` as a `<code>` element.
pub fn form_code_span_html_string(input: &str) -> (r: String)
    ensures
        r@ == spec_code_html(input@),
    decreases input@.len(),
{
    proof {
        lemma_find_ix(input@, char_is('`'));
        match find_ix(input@, char_is('`')) {
            Some(k) => {
                lemma_find_ix(input@.skip(k + 1), char_is('`'));
            },
            None => {},
        }
    }
    match crate::parser::inline::segment_code_span_line(input) {
        None => input.to_owned(),
        Some((initial, code, fin)) => {
            let mut out = initial;
            out.append("<code>");
            out.append(code.as_str());
            out.append("</code>");
            let tail = form_code_span_html_string(fin.as_str());
            out.append(tail.as_str());
            out
        },
    }
}

/// The heading text and its level: the count of leading `#` characters,
/// which at least one whitespace character must follow.
pub fn parse_heading_text(line: &str) -> (r: Option<(String, usize)>)
    ensures
        ({
            let level = pred_prefix_len(line@, char_is('#'));
            let w = spec_ws_prefix_len(line@.skip(level));
            if level >= 1 && w >= 1 {
                r matches Some((heading, l)) && heading@ == line@.skip(level + w) && l == level
            } else {
                r is None
            }
        }),
{
    let llen = line.unicode_len();
    let mut level: usize = 0;
    loop
        invariant
            level <= llen,
            llen == line@.len(),
            forall|j: int| 0 <= j < level ==> line@[j] == '#',
        ensures
            level == pred_prefix_len(line@, char_is('#')),
        decreases llen - level,
    {
        if level == llen {
            proof {
                crate::text::lemma_pred_prefix(line@, char_is('#'), level as int);
            }
            break;
        }
        if line.get_char(level) != '#' {
            proof {
                crate::text::lemma_pred_prefix(line@, char_is('#'), level as int);
            }
            break;
        }
        level = level + 1;
    }
    if level < 1 {
        return None;
    }
    let after = line.substring_char(level, llen);
    let w = skip_ws(after, 0);
    if w < 1 {
        return None;
    }
    let heading = after.substring_char(w, llen - level).to_owned();
    Some((heading, level))
}

/// The heading markup: level, display text after code-span, widow and
/// typographic passes, and the derived id.
pub open spec fn spec_heading_line(line: Seq<char>) -> Option<(Seq<char>, int)> {
    let level = pred_prefix_len(line, char_is('#'));
    let w = spec_ws_prefix_len(line.skip(level));
    if level >= 1 && w >= 1 {
        let value = line.skip(level + w);
        let id = spec_slug_id(value);
        let text = spec_format_heading_widows(spec_trim_end(spec_code_html(value)));
        Some(
            (
                "<h"@ + spec_dec_str(level) + " id=\""@ + id + "\"><Heading id=\""@ + id
                    + "\" text=\""@ + text + "\"/></h"@ + spec_dec_str(level) + ">"@,
                level,
            ),
        )
    } else {
        None
    }
}

/// Recognizes a heading line and forms its markup; the depth returned is
/// the heading level.
pub fn form_heading_line(line: &str) -> (r: Option<(String, LineType, usize)>)
    ensures
        match spec_heading_line(line@) {
            Some((markup, level)) => r matches Some((m, t, l)) && m@ == markup && t
                == LineType::Heading && l == level,
            None => r is None,
        },
{
    match parse_heading_text(line) {
        None => None,
        Some((value, level)) => {
            let parsed_text = form_code_span_html_string(value.as_str());
            let id = slugify_title(value.as_str());
            let trimmed = trim_end(parsed_text.as_str());
            let text = format_heading_widows(trimmed.as_str());
            let level_str = usize_to_string(level);
            let mut m = String::new();
            m.append("<h");
            m.append(level_str.as_str());
            m.append(" id=\"");
            m.append(id.as_str());
            m.append("\"><Heading id=\"");
            m.append(id.as_str());
            m.append("\" text=\"");
            m.append(text.as_str());
            m.append("\"/></h");
            m.append(level_str.as_str());
            m.append(">");
            Some((m, LineType::Heading, level))
        },
    }
}

} // verus!
