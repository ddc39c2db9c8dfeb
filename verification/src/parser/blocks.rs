//! Block-level constructs outside the component family: HTML block
//! elements, block-level comments, and markdown list items.
use vstd::prelude::*;
use vstd::string::*;

use crate::parser::inline::{parse_inline_wrap_text, spec_inline};
use crate::parser::tags::{
    parse_closing_html_tag, parse_opening_html_tag, spec_closing_tag, spec_opening_tag,
};
use crate::parser::{LineType, MdError};
use crate::text::{
    char_is, digit_pred, digit_prefix, find_sub, is_digit, lemma_find_sub, lemma_pred_prefix,
    occurs_at, pred_prefix_len, skip_ws, spec_find_sub, spec_trim_end, spec_ws_prefix_len,
    starts_with_at, trim_end,
};

verus! {

/// Whether `line` opens a block-level comment.
pub open spec fn spec_comment_open(t: Seq<char>) -> bool {
    t.len() >= "<!--"@.len() && t.take("<!--"@.len() as int) == "<!--"@
}

/// Recognizes the opening line of a block-level comment.
pub fn parse_html_block_level_comment_first_line(line: &str) -> (r: bool)
    ensures
        r == spec_comment_open(line@),
{
    let r = starts_with_at(line, 0, "<!--");
    proof {
        if r {
            assert(line@.take("<!--"@.len() as int) =~= line@.subrange(0, "<!--"@.len() as int));
        } else {
            if spec_comment_open(line@) {
                assert(occurs_at(line@, "<!--"@, 0)) by {
                    assert(line@.subrange(0, "<!--"@.len() as int) =~= line@.take(
                        "<!--"@.len() as int,
                    ));
                }
            }
        }
    }
    r
}

/// Forms the opening line of a block-level comment, trimmed of trailing
/// whitespace.
pub fn form_html_block_level_comment_first_line(line: &str) -> (r: Option<
    (String, LineType, usize),
>)
    ensures
        if spec_comment_open(line@) {
            r matches Some((m, t, d)) && m@ == spec_trim_end(line@) && t
                == LineType::HTMLBlockLevelCommentOpen && d == 0
        } else {
            r is None
        },
{
    if parse_html_block_level_comment_first_line(line) {
        Some((trim_end(line), LineType::HTMLBlockLevelCommentOpen, 0))
    } else {
        None
    }
}

/// Splits `line` at its comment terminator, when one occurs.
pub fn parse_html_block_level_comment_last_line(line: &str) -> (r: Option<(String, String)>)
    ensures
        match spec_find_sub(line@, "-->"@) {
            Some(k) => r matches Some((before, after)) && before@ == line@.take(k) && after@
                == line@.skip(k + "-->"@.len()),
            None => r is None,
        },
{
    proof {
        reveal_strlit("-->");
    }
    let llen = line.unicode_len();
    match find_sub(line, "-->") {
        None => None,
        Some(k) => {
            proof {
                lemma_find_sub(line@, "-->"@);
            }
            let before = line.substring_char(0, k).to_owned();
            let after = line.substring_char(k + 3, llen).to_owned();
            Some((before, after))
        },
    }
}

/// The markup of a comment's closing line: the closed comment, then the
/// inline-formatted text after it, trimmed.
pub open spec fn spec_comment_last(t: Seq<char>) -> Option<Result<Seq<char>, MdError>> {
    match spec_find_sub(t, "-->"@) {
        None => None,
        Some(k) => {
            let after = t.skip(k + "-->"@.len());
            match spec_inline(after) {
                None => Some(Err(MdError::MissingRequiredAttribute)),
                Some(f) => Some(Ok(t.take(k) + "-->"@ + spec_trim_end(f))),
            }
        },
    }
}

/// Recognizes the closing line of a block-level comment; a line without
/// the terminator keeps the comment open.
pub fn form_html_block_level_comment_last_line(line: &str) -> (r: Result<
    (String, LineType, usize),
    MdError,
>)
    ensures
        match spec_comment_last(line@) {
            Some(Ok(markup)) => r matches Ok((m, t, d)) && m@ == markup && t
                == LineType::HTMLBlockLevelComment && d == 0,
            Some(Err(e)) => r matches Err(e2) && e2 == e,
            None => r matches Ok((m, t, d)) && m@ == spec_trim_end(line@) && t
                == LineType::HTMLBlockLevelCommentOpen && d == 0,
        },
{
    match parse_html_block_level_comment_last_line(line) {
        None => Ok((trim_end(line), LineType::HTMLBlockLevelCommentOpen, 0)),
        Some((before, after)) => {
            let formatted = match parse_inline_wrap_text(after.as_str()) {
                Ok(f) => f,
                Err(e) => {
                    return Err(e);
                },
            };
            let mut m = before;
            m.append("-->");
            let trimmed = trim_end(formatted.as_str());
            m.append(trimmed.as_str());
            Ok((m, LineType::HTMLBlockLevelComment, 0))
        },
    }
}

/// The classification of a recognized HTML block element opening: the
/// fixed set of recognized tags, or the authoring error outside it.
pub open spec fn spec_block_element_first(t: Seq<char>) -> Option<Result<LineType, MdError>> {
    match spec_opening_tag(t) {
        None => None,
        Some(((name, attrs), rest)) => {
            if name == "dl"@ {
                Some(Ok(LineType::HTMLDescriptionListOpen))
            } else if name == "div"@ {
                Some(Ok(LineType::HTMLDivBlockOpen))
            } else if name == "figure"@ {
                Some(Ok(LineType::HTMLFigureBlockOpen))
            } else {
                Some(Err(MdError::UnrecognizedBlockElement))
            }
        },
    }
}

/// Recognizes the opening line of an HTML block element; a block tag
/// outside the recognized set is a hard error.
pub fn form_html_block_element_first_line(line: &str) -> (r: Result<
    Option<(String, LineType, usize)>,
    MdError,
>)
    ensures
        match spec_block_element_first(line@) {
            Some(Ok(lt)) => r matches Ok(Some((m, t, d))) && m@ == line@ && t == lt && d == 0,
            Some(Err(e)) => r matches Err(e2) && e2 == e,
            None => r matches Ok(x) && x is None,
        },
{
    match parse_opening_html_tag(line) {
        None => Ok(None),
        Some((name, attrs, ty, rest)) => {
            if crate::text::eq_str(name.as_str(), "dl") {
                Ok(Some((line.to_owned(), LineType::HTMLDescriptionListOpen, 0)))
            } else if crate::text::eq_str(name.as_str(), "div") {
                Ok(Some((line.to_owned(), LineType::HTMLDivBlockOpen, 0)))
            } else if crate::text::eq_str(name.as_str(), "figure") {
                Ok(Some((line.to_owned(), LineType::HTMLFigureBlockOpen, 0)))
            } else {
                Err(MdError::UnrecognizedBlockElement)
            }
        },
    }
}

/// The classification of a recognized HTML block element closing.
pub open spec fn spec_block_element_last(t: Seq<char>) -> Option<LineType> {
    match spec_closing_tag(t) {
        None => None,
        Some(((name, attrs), rest)) => {
            if name == "dl"@ {
                Some(LineType::HTMLDescriptionList)
            } else if name == "div"@ {
                Some(LineType::HTMLDivBlock)
            } else if name == "figure"@ {
                Some(LineType::HTMLFigureBlock)
            } else {
                None
            }
        },
    }
}

/// Recognizes the closing line of an HTML block element.
pub fn form_html_block_element_last_line(line: &str) -> (r: Option<(String, LineType, usize)>)
    ensures
        match spec_block_element_last(line@) {
            Some(lt) => r matches Some((m, t, d)) && m@ == line@ && t == lt && d == 0,
            None => r is None,
        },
{
    match parse_closing_html_tag(line) {
        None => None,
        Some((name, attrs, ty, rest)) => {
            if crate::text::eq_str(name.as_str(), "dl") {
                Some((line.to_owned(), LineType::HTMLDescriptionList, 0))
            } else if crate::text::eq_str(name.as_str(), "div") {
                Some((line.to_owned(), LineType::HTMLDivBlock, 0))
            } else if crate::text::eq_str(name.as_str(), "figure") {
                Some((line.to_owned(), LineType::HTMLFigureBlock, 0))
            } else {
                None
            }
        },
    }
}

/// The indentation, numeric marker and content of an ordered list item:
/// leading spaces, digits, then a dot and a space; the content is trimmed.
pub open spec fn spec_ordered_item(t: Seq<char>) -> Option<(Seq<char>, int, Seq<char>)> {
    let ind = pred_prefix_len(t, char_is(' '));
    let after = t.skip(ind);
    let d = pred_prefix_len(after, digit_pred());
    if d >= 1 {
        let rest = after.skip(d);
        if rest.len() >= ". "@.len() && rest.take(". "@.len() as int) == ". "@ {
            let content = rest.skip(". "@.len() as int);
            Some(
                (
                    after.take(d),
                    ind,
                    spec_trim_end(content.skip(spec_ws_prefix_len(content))),
                ),
            )
        } else {
            None
        }
    } else {
        None
    }
}

/// Length of the run of spaces at the front of `s`.
fn space_prefix(s: &str) -> (r: usize)
    ensures
        r == pred_prefix_len(s@, char_is(' ')),
        r <= s@.len(),
{
    let slen = s.unicode_len();
    let mut i: usize = 0;
    while i < slen
        invariant
            i <= slen,
            slen == s@.len(),
            forall|j: int| 0 <= j < i ==> s@[j] == ' ',
        decreases slen - i,
    {
        if s.get_char(i) != ' ' {
            proof {
                lemma_pred_prefix(s@, char_is(' '), i as int);
            }
            return i;
        }
        i = i + 1;
    }
    proof {
        lemma_pred_prefix(s@, char_is(' '), slen as int);
    }
    slen
}

/// Parses an ordered list item line into its trimmed content, indentation
/// and numeric marker.
pub fn parse_ordered_list_text(line: &str) -> (r: Option<(String, usize, String)>)
    ensures
        match spec_ordered_item(line@) {
            Some((start, ind, content)) => r matches Some((c, ri, rs)) && c@ == content && ri
                == ind && rs@ == start,
            None => r is None,
        },
{
    let llen = line.unicode_len();
    let ind = space_prefix(line);
    let after = line.substring_char(ind, llen);
    let afterlen = llen - ind;
    let d = digit_prefix(after);
    if d < 1 {
        return None;
    }
    let start = after.substring_char(0, d).to_owned();
    let rest = after.substring_char(d, afterlen);
    if !starts_with_at(rest, 0, ". ") {
        proof {
            if rest@.len() >= ". "@.len() && rest@.take(". "@.len() as int) == ". "@ {
                assert(occurs_at(rest@, ". "@, 0)) by {
                    assert(rest@.subrange(0, ". "@.len() as int) =~= rest@.take(
                        ". "@.len() as int,
                    ));
                }
            }
        }
        return None;
    }
    proof {
        reveal_strlit(". ");
        assert(rest@.take(". "@.len() as int) =~= rest@.subrange(0, ". "@.len() as int));
    }
    let content = rest.substring_char(2, afterlen - d);
    let trimmed = crate::text::trim(content);
    Some((trimmed, ind, start))
}

/// The indentation and content of an unordered list item: leading spaces,
/// then a dash and a space.
pub open spec fn spec_unordered_item(t: Seq<char>) -> Option<(Seq<char>, int)> {
    let ind = pred_prefix_len(t, char_is(' '));
    let after = t.skip(ind);
    if after.len() >= "- "@.len() && after.take("- "@.len() as int) == "- "@ {
        Some((after.skip("- "@.len() as int), ind))
    } else {
        None
    }
}

/// Parses an unordered list item line into its content and indentation.
pub fn parse_unordered_list_text(line: &str) -> (r: Option<(String, usize)>)
    ensures
        match spec_unordered_item(line@) {
            Some((content, ind)) => r matches Some((c, ri)) && c@ == content && ri == ind,
            None => r is None,
        },
{
    let llen = line.unicode_len();
    let ind = space_prefix(line);
    let after = line.substring_char(ind, llen);
    if !starts_with_at(after, 0, "- ") {
        proof {
            if after@.len() >= "- "@.len() && after@.take("- "@.len() as int) == "- "@ {
                assert(occurs_at(after@, "- "@, 0)) by {
                    assert(after@.subrange(0, "- "@.len() as int) =~= after@.take(
                        "- "@.len() as int,
                    ));
                }
            }
        }
        return None;
    }
    proof {
        reveal_strlit("- ");
        assert(after@.take("- "@.len() as int) =~= after@.subrange(0, "- "@.len() as int));
    }
    let content = after.substring_char(2, llen - ind).to_owned();
    Some((content, ind))
}

/// The markup of the first item of an ordered list: the list opens here,
/// with a `start` attribute when the marker is not 1.
pub open spec fn spec_ordered_first(t: Seq<char>) -> Option<Result<(Seq<char>, int), MdError>> {
    match spec_ordered_item(t) {
        None => None,
        Some((start, ind, content)) => match spec_inline(content) {
            None => Some(Err(MdError::MissingRequiredAttribute)),
            Some(p) => Some(
                Ok(
                    (
                        if start == "1"@ {
                            "<ol>\n  <li>"@ + p
                        } else {
                            "<ol start=\""@ + start + "\">\n  <li>"@ + p
                        },
                        ind,
                    ),
                ),
            ),
        },
    }
}

/// Recognizes the first line of an ordered list.
pub fn form_ordered_list_first_line(line: &str) -> (r: Result<
    Option<(String, LineType, usize)>,
    MdError,
>)
    ensures
        match spec_ordered_first(line@) {
            Some(Ok((markup, ind))) => r matches Ok(Some((m, t, d))) && m@ == markup && t
                == LineType::OrderedListItemOpen && d == ind,
            Some(Err(e)) => r matches Err(e2) && e2 == e,
            None => r matches Ok(x) && x is None,
        },
{
    match parse_ordered_list_text(line) {
        None => Ok(None),
        Some((content, ind, start)) => {
            let p = match parse_inline_wrap_text(content.as_str()) {
                Ok(p) => p,
                Err(e) => {
                    return Err(e);
                },
            };
            let mut m = String::new();
            if crate::text::eq_str(start.as_str(), "1") {
                m.append("<ol>\n  <li>");
            } else {
                m.append("<ol start=\"");
                m.append(start.as_str());
                m.append("\">\n  <li>");
            }
            m.append(p.as_str());
            Ok(Some((m, LineType::OrderedListItemOpen, ind)))
        },
    }
}

/// The markup of a continuing ordered list item.
pub open spec fn spec_ordered_line(t: Seq<char>) -> Option<Result<(Seq<char>, int), MdError>> {
    match spec_ordered_item(t) {
        None => None,
        Some((start, ind, content)) => match spec_inline(content) {
            None => Some(Err(MdError::MissingRequiredAttribute)),
            Some(p) => Some(Ok(("  <li>"@ + p, ind))),
        },
    }
}

/// Recognizes a continuing ordered list item.
pub fn form_ordered_list_line(line: &str) -> (r: Result<
    Option<(String, LineType, usize)>,
    MdError,
>)
    ensures
        match spec_ordered_line(line@) {
            Some(Ok((markup, ind))) => r matches Ok(Some((m, t, d))) && m@ == markup && t
                == LineType::OrderedListItemOpen && d == ind,
            Some(Err(e)) => r matches Err(e2) && e2 == e,
            None => r matches Ok(x) && x is None,
        },
{
    match parse_ordered_list_text(line) {
        None => Ok(None),
        Some((content, ind, start)) => {
            let p = match parse_inline_wrap_text(content.as_str()) {
                Ok(p) => p,
                Err(e) => {
                    return Err(e);
                },
            };
            let mut m = String::new();
            m.append("  <li>");
            m.append(p.as_str());
            Ok(Some((m, LineType::OrderedListItemOpen, ind)))
        },
    }
}

/// The markup of an unordered list item.
pub open spec fn spec_unordered_line(t: Seq<char>) -> Option<Result<(Seq<char>, int), MdError>> {
    match spec_unordered_item(t) {
        None => None,
        Some((content, ind)) => match spec_inline(content) {
            None => Some(Err(MdError::MissingRequiredAttribute)),
            Some(p) => Some(Ok(("<li>\n  "@ + p + "\n</li>"@, ind))),
        },
    }
}

/// Recognizes an unordered list item.
pub fn form_unordered_list_line(line: &str) -> (r: Result<
    Option<(String, LineType, usize)>,
    MdError,
>)
    ensures
        match spec_unordered_line(line@) {
            Some(Ok((markup, ind))) => r matches Ok(Some((m, t, d))) && m@ == markup && t
                == LineType::UnorderedListItem && d == ind,
            Some(Err(e)) => r matches Err(e2) && e2 == e,
            None => r matches Ok(x) && x is None,
        },
{
    match parse_unordered_list_text(line) {
        None => Ok(None),
        Some((content, ind)) => {
            let p = match parse_inline_wrap_text(content.as_str()) {
                Ok(p) => p,
                Err(e) => {
                    return Err(e);
                },
            };
            let mut m = String::new();
            m.append("<li>\n  ");
            m.append(p.as_str());
            m.append("\n</li>");
            Ok(Some((m, LineType::UnorderedListItem, ind)))
        },
    }
}

} // verus!
