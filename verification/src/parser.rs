//! The line-oriented compiler core: line classification, the three stacks of
//! open constructs and the per-line recognizers live in the submodules.
pub mod blocks;
pub mod fenced;
pub mod frontmatter;
pub mod heading;
pub mod inline;
pub mod jsx;
pub mod table;
pub mod tags;

use vstd::prelude::*;

verus! {

/// A content-authoring error: fatal for the current document.
#[derive(Clone, Copy, Debug, PartialEq, Eq, Structural)]
pub enum MdError {
    /// A tag lacks an attribute it must carry, such as an anchor without `href`.
    MissingRequiredAttribute,
    /// A closing tag whose name does not match the currently open opening tag.
    ComponentNameMismatch,
    /// An HTML block-level tag outside the recognized set.
    UnrecognizedBlockElement,
    /// Fenced-code meta or component attributes that do not fit the grammar.
    MalformedComponentGrammar,
}

/// How far an HTML-style tag on one line got.
#[derive(Clone, Copy, Debug, PartialEq, Eq, Hash, Structural)]
pub enum HTMLTagType {
    Opening,
    OpeningStart,
    SelfClosing,
    Closing,
}

/// The classification assigned to a recognized line; it drives the stack
/// transitions of the dispatcher.
#[derive(Clone, Copy, Debug, PartialEq, Eq, Structural)]
pub enum LineType {
    CodeFragment,
    CodeFragmentOpen,
    CodeFragmentOpening,
    FencedCodeBlock,
    FencedCodeBlockOpen,
    Frontmatter,
    FrontmatterDelimiter,
    GatsbyNotMaintained,
    JSXComponent,
    Heading,
    HTMLBlockLevelComment,
    HTMLBlockLevelCommentOpen,
    HTMLDescriptionList,
    HTMLDescriptionListOpen,
    HTMLDivBlockOpen,
    HTMLDivBlock,
    HTMLFigureBlockOpen,
    HTMLFigureBlock,
    HTMLTableBodyOpen,
    HTMLTableBody,
    HTMLTableHeadOpen,
    HowTo,
    HowToOpen,
    HowToOpening,
    HowToSection,
    HowToSectionOpen,
    HowToSectionOpening,
    HowToStep,
    HowToStepOpen,
    HowToStepOpening,
    HowToDirection,
    HowToDirectionOpen,
    HowToDirectionOpening,
    Image,
    OrderedList,
    OrderedListItemOpen,
    Paragraph,
    Poll,
    PollOpen,
    PollOpening,
    Questions,
    Tweet,
    UnorderedListItem,
    Video,
    VideoOpen,
    VideoOpening,
}

/// The two list flavours tracked on the list stack.
#[derive(Clone, Copy, Debug, PartialEq, Eq, Structural)]
pub enum ListType {
    Ordered,
    Unordered,
}

/// Markdown block constructs with a paragraph-continuation mode.
#[derive(Clone, Copy, Debug, PartialEq, Eq, Structural)]
pub enum MarkdownBlock {
    OrderedList,
}

/// The HTML block elements that may be open across lines.
#[derive(Clone, Copy, Debug, PartialEq, Eq, Structural)]
pub enum HTMLBlockElementType {
    Comment,
    DescriptionList,
    Div,
    Figure,
    TableBody,
    TableHead,
}

/// Per-column alignment markers of a table's alignment row; parsed and
/// validated, deliberately not rendered.
#[derive(Clone, Copy, Debug, PartialEq, Eq, Structural)]
pub enum TableAlign {
    Centre,
    Left,
    Right,
}

} // verus!

use vstd::prelude::*;
use vstd::string::*;

verus! {

/// First recognizer outcome that matched, `Ok(None)` meaning none did.
pub open spec fn chain2(
    a: Result<Option<(Seq<char>, LineType, int)>, MdError>,
    b: Result<Option<(Seq<char>, LineType, int)>, MdError>,
) -> Result<Option<(Seq<char>, LineType, int)>, MdError> {
    match a {
        Ok(None) => b,
        _ => a,
    }
}

/// The fixed first-line recognizer chain, in priority order; the first
/// match wins, and an unrecognized or empty outcome is `Ok(None)`.
pub open spec fn spec_mdx_line(t: Seq<char>) -> Result<
    Option<(Seq<char>, LineType, int)>,
    MdError,
> {
    let r = chain2(
        match crate::parser::jsx::spec_jsx_first_line(t, "CodeFragment"@) {
            Some(ty) => Ok(Some((t, crate::parser::jsx::code_fragment_lt(ty), 0))),
            None => Ok(None),
        },
        chain2(
            match crate::parser::fenced::spec_fenced_first_markup(t) {
                Some(mk) => Ok(Some((mk, LineType::FencedCodeBlockOpen, 0))),
                None => Ok(None),
            },
            chain2(
                if crate::parser::blocks::spec_comment_open(t) {
                    Ok(
                        Some(
                            (
                                crate::text::spec_trim_end(t),
                                LineType::HTMLBlockLevelCommentOpen,
                                0,
                            ),
                        ),
                    )
                } else {
                    Ok(None)
                },
                chain2(
                    match crate::parser::blocks::spec_block_element_first(t) {
                        Some(Ok(lt)) => Ok(Some((t, lt, 0))),
                        Some(Err(e)) => Err(e),
                        None => Ok(None),
                    },
                    chain2(
                        match crate::parser::table::spec_table_head_row(t) {
                            Some(mk) => Ok(
                                Some(
                                    ("<table>\n  <thead>\n"@ + mk, LineType::HTMLTableHeadOpen, 0),
                                ),
                            ),
                            None => Ok(None),
                        },
                        chain2(
                            match crate::parser::jsx::spec_jsx_component(t, "Image"@) {
                                Some((attrs, rest)) => Ok(
                                    Some(("<Image"@ + attrs + "/>"@, LineType::Image, 0)),
                                ),
                                None => Ok(None),
                            },
                            chain2(
                                match crate::parser::jsx::spec_jsx_first_line(t, "Poll"@) {
                                    Some(ty) => Ok(
                                        Some((t, crate::parser::jsx::poll_lt(ty), 0)),
                                    ),
                                    None => Ok(None),
                                },
                                chain2(
                                    match crate::parser::jsx::spec_jsx_component(
                                        t,
                                        "Questions"@,
                                    ) {
                                        Some((attrs, rest)) => Ok(
                                            Some(
                                                ("<Questions"@ + attrs + "/>"@, LineType::Questions, 0),
                                            ),
                                        ),
                                        None => Ok(None),
                                    },
                                    chain2(
                                        match crate::parser::jsx::spec_jsx_component(
                                            t,
                                            "Tweet"@,
                                        ) {
                                            Some((attrs, rest)) => Ok(
                                                Some(("<Tweet"@ + attrs + "/>"@, LineType::Tweet, 0)),
                                            ),
                                            None => Ok(None),
                                        },
                                        chain2(
                                            match crate::parser::jsx::spec_jsx_component(
                                                t,
                                                "GatsbyNotMaintained"@,
                                            ) {
                                                Some((attrs, rest)) => Ok(
                                                    Some(
                                                        (
                                                            "<GatsbyNotMaintained"@ + attrs + "/>"@,
                                                            LineType::GatsbyNotMaintained,
                                                            0,
                                                        ),
                                                    ),
                                                ),
                                                None => Ok(None),
                                            },
                                            chain2(
                                                match crate::parser::jsx::spec_jsx_first_line(
                                                    t,
                                                    "Video"@,
                                                ) {
                                                    Some(ty) => Ok(
                                                        Some((t, crate::parser::jsx::video_lt(ty), 0)),
                                                    ),
                                                    None => Ok(None),
                                                },
                                                chain2(
                                                    match crate::parser::heading::spec_heading_line(
                                                        t,
                                                    ) {
                                                        Some((mk, level)) => Ok(
                                                            Some((mk, LineType::Heading, level)),
                                                        ),
                                                        None => Ok(None),
                                                    },
                                                    chain2(
                                                        match crate::parser::blocks::spec_ordered_first(
                                                            t,
                                                        ) {
                                                            Some(Ok((mk, ind))) => Ok(
                                                                Some((mk, LineType::OrderedListItemOpen, ind)),
                                                            ),
                                                            Some(Err(e)) => Err(e),
                                                            None => Ok(None),
                                                        },
                                                        chain2(
                                                            match crate::parser::blocks::spec_unordered_line(
                                                                t,
                                                            ) {
                                                                Some(Ok((mk, ind))) => Ok(
                                                                    Some((mk, LineType::UnorderedListItem, ind)),
                                                                ),
                                                                Some(Err(e)) => Err(e),
                                                                None => Ok(None),
                                                            },
                                                            match crate::parser::inline::spec_paragraph(
                                                                t,
                                                            ) {
                                                                Some(mk) => Ok(
                                                                    Some((mk, LineType::Paragraph, 0)),
                                                                ),
                                                                None => Err(
                                                                    MdError::MissingRequiredAttribute,
                                                                ),
                                                            },
                                                        ),
                                                    ),
                                                ),
                                            ),
                                        ),
                                    ),
                                ),
                            ),
                        ),
                    ),
                ),
            ),
        ),
    );
    match r {
        Ok(Some((m, lt, d))) => if m.len() == 0 {
            Ok(None)
        } else {
            Ok(Some((m, lt, d)))
        },
        _ => r,
    }
}

/// Offers a line to the fixed chain of first-line recognizers.
#[verifier::rlimit(100)]
#[verifier::spinoff_prover]
fn recognize_line(line: &str) -> (r: Result<Option<(String, LineType, usize)>, MdError>)
    ensures
        match spec_mdx_line(line@) {
            Ok(Some((m, lt, d))) => r matches Ok(Some((rm, rt, rd))) && rm@ == m && rt == lt && rd
                == d,
            Ok(None) => r matches Ok(x) && x is None,
            Err(e) => r matches Err(e2) && e2 == e,
        },
{
    let step: Result<Option<(String, LineType, usize)>, MdError> = {
        if let Some(v) = crate::parser::jsx::form_code_fragment_component_first_line(line) {
            Ok(Some(v))
        } else if let Some(v) = crate::parser::fenced::form_fenced_code_block_first_line(line) {
            Ok(Some(v))
        } else if let Some(v) = crate::parser::blocks::form_html_block_level_comment_first_line(
            line,
        ) {
            Ok(Some(v))
        } else {
            match crate::parser::blocks::form_html_block_element_first_line(line) {
                Err(e) => Err(e),
                Ok(Some(v)) => Ok(Some(v)),
                Ok(None) => {
                    if let Some(v) = crate::parser::table::form_table_head_first_line(line) {
                        Ok(Some(v))
                    } else if let Some(v) = crate::parser::jsx::form_image_component(line) {
                        Ok(Some(v))
                    } else if let Some(v) = crate::parser::jsx::form_poll_component_first_line(
                        line,
                    ) {
                        Ok(Some(v))
                    } else if let Some(v) = crate::parser::jsx::form_questions_component(line) {
                        Ok(Some(v))
                    } else if let Some(v) = crate::parser::jsx::form_tweet_component(line) {
                        Ok(Some(v))
                    } else if let Some(v)
                        = crate::parser::jsx::form_gatsby_not_maintained_component(line) {
                        Ok(Some(v))
                    } else if let Some(v) = crate::parser::jsx::form_video_component_first_line(
                        line,
                    ) {
                        Ok(Some(v))
                    } else if let Some(v) = crate::parser::heading::form_heading_line(line) {
                        Ok(Some(v))
                    } else {
                        match crate::parser::blocks::form_ordered_list_first_line(line) {
                            Err(e) => Err(e),
                            Ok(Some(v)) => Ok(Some(v)),
                            Ok(None) => {
                                match crate::parser::blocks::form_unordered_list_line(line) {
                                    Err(e) => Err(e),
                                    Ok(Some(v)) => Ok(Some(v)),
                                    Ok(None) => {
                                        match crate::parser::inline::form_inline_wrap_text(line) {
                                            Err(e) => Err(e),
                                            Ok(v) => Ok(Some(v)),
                                        }
                                    },
                                }
                            },
                        }
                    }
                },
            }
        }
    };
    match step {
        Err(e) => Err(e),
        Ok(None) => Ok(None),
        Ok(Some((m, lt, d))) => {
            if m.as_str().unicode_len() == 0 {
                Ok(None)
            } else {
                Ok(Some((m, lt, d)))
            }
        },
    }
}

/// Hands a line to an open ordered-list block: a further item continues
/// the list, anything else leaves it to the caller.
pub open spec fn spec_open_markdown_block(
    t: Seq<char>,
    ob: Option<MarkdownBlock>,
) -> Result<Option<(Seq<char>, LineType, int)>, MdError> {
    match ob {
        None => Ok(None),
        Some(MarkdownBlock::OrderedList) => match crate::parser::blocks::spec_ordered_line(t) {
            None => Ok(None),
            Some(Err(e)) => Err(e),
            Some(Ok((m, ind))) => if m.len() == 0 {
                Ok(Some(("</ol>"@, LineType::OrderedList, ind)))
            } else {
                Ok(Some(("</li>"@ + m, LineType::OrderedListItemOpen, ind)))
            },
        },
    }
}

/// Continues an open ordered-list block.
pub fn parse_open_markdown_block(line: &str, open_markdown_block: Option<MarkdownBlock>) -> (r:
    Result<Option<(String, LineType, usize)>, MdError>)
    ensures
        match spec_open_markdown_block(line@, open_markdown_block) {
            Ok(Some((m, lt, d))) => r matches Ok(Some((rm, rt, rd))) && rm@ == m && rt == lt && rd
                == d,
            Ok(None) => r matches Ok(x) && x is None,
            Err(e) => r matches Err(e2) && e2 == e,
        },
{
    match open_markdown_block {
        None => Ok(None),
        Some(MarkdownBlock::OrderedList) => {
            match crate::parser::blocks::form_ordered_list_line(line) {
                Err(e) => Err(e),
                Ok(None) => Ok(None),
                Ok(Some((m, lt, d))) => {
                    if m.as_str().unicode_len() == 0 {
                        Ok(Some(("</ol>".to_owned(), LineType::OrderedList, d)))
                    } else {
                        let mut out = String::new();
                        out.append("</li>");
                        out.append(m.as_str());
                        Ok(Some((out, lt, d)))
                    }
                },
            }
        },
    }
}

/// Hands a line to the open HTML block element: its dedicated closing
/// recognizer ends it, anything else continues it.
pub open spec fn spec_open_html_block(
    t: Seq<char>,
    ob: Option<HTMLBlockElementType>,
) -> Result<Option<(Seq<char>, LineType, int)>, MdError> {
    match ob {
        None => Ok(None),
        Some(HTMLBlockElementType::Div) => match crate::parser::blocks::spec_block_element_last(
            t,
        ) {
            Some(lt) => if lt != LineType::HTMLDivBlock {
                Err(MdError::ComponentNameMismatch)
            } else if t.len() == 0 {
                Ok(None)
            } else {
                Ok(Some((t, lt, 0)))
            },
            None => Ok(Some((t, LineType::HTMLDivBlockOpen, 0))),
        },
        Some(HTMLBlockElementType::Figure) => match crate::parser::blocks::spec_block_element_last(
            t,
        ) {
            Some(lt) => if lt != LineType::HTMLFigureBlock {
                Err(MdError::ComponentNameMismatch)
            } else if t.len() == 0 {
                Ok(None)
            } else {
                Ok(Some((t, lt, 0)))
            },
            None => Ok(Some((t, LineType::HTMLFigureBlockOpen, 0))),
        },
        Some(HTMLBlockElementType::DescriptionList) => match
        crate::parser::blocks::spec_block_element_last(t) {
            Some(lt) => if lt != LineType::HTMLDescriptionList {
                Err(MdError::ComponentNameMismatch)
            } else if t.len() == 0 {
                Ok(None)
            } else {
                Ok(Some((t, lt, 0)))
            },
            None => Ok(Some((t, LineType::HTMLDescriptionListOpen, 0))),
        },
        Some(HTMLBlockElementType::TableBody) => match crate::parser::table::spec_table_body_row(
            t,
        ) {
            Some(m) => Ok(Some((m, LineType::HTMLTableBodyOpen, 0))),
            None => Ok(Some(("  </tbody>\n</table>"@, LineType::HTMLTableBody, 0))),
        },
        Some(HTMLBlockElementType::TableHead) => if crate::parser::table::spec_table_header_row(t)
            is Some {
            Ok(Some(("  </thead>\n  <tbody>"@, LineType::HTMLTableBodyOpen, 0)))
        } else {
            match crate::parser::table::spec_table_head_row(t) {
                Some(m) => Ok(Some((m, LineType::HTMLTableHeadOpen, 0))),
                None => Ok(None),
            }
        },
        Some(HTMLBlockElementType::Comment) => match crate::parser::blocks::spec_comment_last(t) {
            Some(Ok(m)) => Ok(Some((m, LineType::HTMLBlockLevelComment, 0))),
            Some(Err(e)) => Err(e),
            None => Ok(
                Some((crate::text::spec_trim_end(t), LineType::HTMLBlockLevelCommentOpen, 0)),
            ),
        },
    }
}

/// Continues the open HTML block element.
pub fn parse_open_html_block(
    line: &str,
    open_html_block_element: Option<HTMLBlockElementType>,
) -> (r: Result<Option<(String, LineType, usize)>, MdError>)
    ensures
        match spec_open_html_block(line@, open_html_block_element) {
            Ok(Some((m, lt, d))) => r matches Ok(Some((rm, rt, rd))) && rm@ == m && rt == lt && rd
                == d,
            Ok(None) => r matches Ok(x) && x is None,
            Err(e) => r matches Err(e2) && e2 == e,
        },
{
    match open_html_block_element {
        None => Ok(None),
        Some(HTMLBlockElementType::Div) | Some(HTMLBlockElementType::Figure) | Some(
            HTMLBlockElementType::DescriptionList,
        ) => {
            let (fallback_lt, close_lt) = match open_html_block_element {
                Some(HTMLBlockElementType::Figure) => (
                    LineType::HTMLFigureBlockOpen,
                    LineType::HTMLFigureBlock,
                ),
                Some(HTMLBlockElementType::DescriptionList) => (
                    LineType::HTMLDescriptionListOpen,
                    LineType::HTMLDescriptionList,
                ),
                _ => (LineType::HTMLDivBlockOpen, LineType::HTMLDivBlock),
            };
            match crate::parser::blocks::form_html_block_element_last_line(line) {
                Some((m, lt, d)) => {
                    if lt != close_lt {
                        Err(MdError::ComponentNameMismatch)
                    } else if m.as_str().unicode_len() == 0 {
                        Ok(None)
                    } else {
                        Ok(Some((m, lt, d)))
                    }
                },
                None => Ok(Some((line.to_owned(), fallback_lt, 0))),
            }
        },
        Some(HTMLBlockElementType::TableBody) => {
            let (m, lt, d) = crate::parser::table::form_table_body_last_line(line);
            Ok(Some((m, lt, d)))
        },
        Some(HTMLBlockElementType::TableHead) => {
            match crate::parser::table::form_table_head_last_line(line) {
                Some((m, lt, d)) => Ok(Some((m, lt, d))),
                None => Ok(None),
            }
        },
        Some(HTMLBlockElementType::Comment) => {
            match crate::parser::blocks::form_html_block_level_comment_last_line(line) {
                Ok((m, lt, d)) => Ok(Some((m, lt, d))),
                Err(e) => Err(e),
            }
        },
    }
}

/// The one-element stack holding an optional open construct.
pub open spec fn opt_to_stack<T>(o: Option<T>) -> Seq<T> {
    match o {
        None => Seq::empty(),
        Some(x) => Seq::<T>::empty().push(x),
    }
}

/// Classifies one line given the top of each open-construct stack, in
/// strict priority order: an open list block, then an open HTML block,
/// then an open component, then the first-line recognizers. An open guide
/// component is consulted against a fresh register whose model starts
/// empty; for those tops the dispatcher's own contract describes the
/// inner call, and this contract is silent.
pub fn parse_mdx_line(
    line: &str,
    open_markdown_block: Option<MarkdownBlock>,
    open_html_block_element: Option<HTMLBlockElementType>,
    open_jsx_component: Option<crate::parser::jsx::JSXComponentType>,
) -> (r: Result<Option<(String, LineType, usize)>, MdError>)
    ensures
        ({
            let st = scan_view(
                0,
                Seq::empty(),
                opt_to_stack(open_markdown_block),
                opt_to_stack(open_html_block_element),
                opt_to_stack(open_jsx_component),
                crate::parser::frontmatter::ComponentKinds {
                    code_fragment: false,
                    how_to: false,
                    gatsby_not_maintained: false,
                    image: false,
                    poll: false,
                    questions: false,
                    tweet: false,
                    video: false,
                },
                Seq::empty(),
            );
            match spec_scan_classify(st, line@) {
                ClassOut::Guide => true,
                ClassOut::Fail { e } => r matches Err(e2) && e2 == e,
                ClassOut::Line { parsed } => match parsed {
                    Some((m, lt, d)) => r matches Ok(Some((rm, rt, rd))) && rm@ == m && rt == lt
                        && rd as int == d,
                    None => r matches Ok(x) && x is None,
                },
            }
        }),
{
    let mut md_stack: crate::utility::stack::Stack<MarkdownBlock> =
        crate::utility::stack::Stack::new();
    match open_markdown_block {
        Some(b) => {
            md_stack.push(b);
        },
        None => {},
    }
    let mut html_stack: crate::utility::stack::Stack<HTMLBlockElementType> =
        crate::utility::stack::Stack::new();
    match open_html_block_element {
        Some(b) => {
            html_stack.push(b);
        },
        None => {},
    }
    let mut register = crate::parser::jsx::JSXComponentRegister::new();
    match open_jsx_component {
        Some(c) => {
            register.push(c);
        },
        None => {},
    }
    let ghost st = scan_view(
        0,
        Seq::empty(),
        opt_to_stack(open_markdown_block),
        opt_to_stack(open_html_block_element),
        opt_to_stack(open_jsx_component),
        crate::parser::frontmatter::ComponentKinds {
            code_fragment: false,
            how_to: false,
            gatsby_not_maintained: false,
            image: false,
            poll: false,
            questions: false,
            tweet: false,
            video: false,
        },
        Seq::empty(),
    );
    proof {
        assert(md_stack@ =~= opt_to_stack(open_markdown_block));
        assert(html_stack@ =~= opt_to_stack(open_html_block_element));
        assert(register.components@ =~= opt_to_stack(open_jsx_component));
    }
    classify_line(line, &md_stack, &html_stack, &mut register, Ghost(st))
}

/// Whether a line is the front-matter delimiter.
pub open spec fn spec_fm_delim(t: Seq<char>) -> bool {
    t.len() >= "---"@.len() && t.take("---"@.len() as int) == "---"@
}

/// The count of leading lines taken by the front matter from line `i` on,
/// 1-based as a line count; `0` when the first content line is not the
/// delimiter.
pub open spec fn spec_fm_skip(ls: Seq<Seq<char>>, i: int, open: bool) -> int
    decreases ls.len() - i,
{
    if i < 0 || i >= ls.len() {
        i + 1
    } else if spec_fm_delim(ls[i]) {
        if open {
            i + 1
        } else {
            spec_fm_skip(ls, i + 1, true)
        }
    } else if !open {
        0
    } else {
        spec_fm_skip(ls, i + 1, open)
    }
}

/// Counts the leading lines taken by a front-matter block: `0` when the
/// first line is not the delimiter, else the count through the second
/// delimiter, inclusive.
pub fn parse_frontmatter(lines: &Vec<String>) -> (r: usize)
    requires
        lines@.len() < usize::MAX,
    ensures
        r == spec_fm_skip(crate::text::strings_view(lines@), 0, false),
        lines@.len() > 0 && !spec_fm_delim(lines@[0]@) ==> r == 0,
{
    let ghost ls = crate::text::strings_view(lines@);
    let n = lines.len();
    let mut i: usize = 0;
    let mut open = false;
    while i < n
        invariant
            i <= n,
            n == lines@.len(),
            ls == crate::text::strings_view(lines@),
            spec_fm_skip(ls, 0, false) == spec_fm_skip(ls, i as int, open),
            i > 0 ==> open,
        decreases n - i,
    {
        let is_delim = crate::text::starts_with_at(lines[i].as_str(), 0, "---");
        proof {
            if is_delim {
                assert(lines@[i as int]@.take("---"@.len() as int) =~= lines@[i as int]@.subrange(
                    0,
                    "---"@.len() as int,
                ));
            } else {
                if spec_fm_delim(ls[i as int]) {
                    assert(crate::text::occurs_at(lines@[i as int]@, "---"@, 0)) by {
                        assert(lines@[i as int]@.subrange(0, "---"@.len() as int)
                            =~= lines@[i as int]@.take("---"@.len() as int));
                    }
                }
            }
        }
        if is_delim {
            if open {
                return i + 1;
            }
            open = true;
        } else if !open {
            return 0;
        }
        i = i + 1;
    }
    n + 1
}

} // verus!

verus! {

/// The scan state read off the driver's concrete state.
pub open spec fn scan_view(
    ind: int,
    lists: Seq<ListType>,
    markdown: Seq<MarkdownBlock>,
    html: Seq<HTMLBlockElementType>,
    components: Seq<crate::parser::jsx::JSXComponentType>,
    kinds: crate::parser::frontmatter::ComponentKinds,
    tokens: Seq<Seq<char>>,
) -> ScanSt {
    ScanSt { indentation: ind, lists, markdown, html, components, kinds, tokens }
}

/// The three list arms of the tag dispatch: the nesting algorithm over
/// the list stack, the continuation marker and the emitted lines.
#[verifier::rlimit(100)]
#[verifier::spinoff_prover]
fn apply_list_tag(
    markup: String,
    line_type: LineType,
    indentation: usize,
    current_indentation: &mut usize,
    open_lists: &mut crate::utility::stack::Stack<ListType>,
    open_markdown_block_stack: &mut crate::utility::stack::Stack<MarkdownBlock>,
    tokens: &mut Vec<String>,
    Ghost(st): Ghost<ScanSt>,
) -> (r: ())
    requires
        line_type == LineType::OrderedList || line_type == LineType::OrderedListItemOpen
            || line_type == LineType::UnorderedListItem,
        st.indentation == *old(current_indentation) as int,
        st.lists == old(open_lists)@,
        st.markdown == old(open_markdown_block_stack)@,
        st.tokens == crate::text::strings_view(old(tokens)@),
    ensures
        ({
            let post = spec_apply_tag(st, markup@, line_type, indentation as int);
            &&& *final(current_indentation) as int == post.indentation
            &&& final(open_lists)@ == post.lists
            &&& final(open_markdown_block_stack)@ == post.markdown
            &&& crate::text::strings_view(final(tokens)@) == post.tokens
        }),
{
    match line_type {
        LineType::OrderedList => {
            open_markdown_block_stack.pop();
            open_lists.pop();
            crate::text::push_line(tokens, markup.as_str());
        },
        LineType::OrderedListItemOpen => {
            let md_open = match open_markdown_block_stack.peek() {
                Some(b) => Some(*b),
                None => None,
            };
            if md_open != Some(MarkdownBlock::OrderedList) {
                open_markdown_block_stack.push(MarkdownBlock::OrderedList);
            }
            if open_lists.is_empty() {
                open_lists.push(ListType::Ordered);
                crate::text::push_line(tokens, markup.as_str());
            } else if indentation > *current_indentation {
                open_lists.push(ListType::Ordered);
                let mut t = String::new();
                t.append("<ol>\n  ");
                append_list_indent(&mut t, open_lists.len());
                t.append(markup.as_str());
                crate::text::push_line(tokens, t.as_str());
            } else if indentation == *current_indentation {
                let switching = match open_lists.peek() {
                    Some(t) => *t == ListType::Unordered,
                    None => false,
                };
                if switching {
                    open_lists.pop();
                    crate::text::push_line(tokens, "</ul>");
                    open_lists.push(ListType::Ordered);
                    crate::text::push_line(tokens, markup.as_str());
                } else {
                    let mut t = String::new();
                    append_list_indent(&mut t, open_lists.len());
                    t.append(markup.as_str());
                    crate::text::push_line(tokens, t.as_str());
                }
            } else {
                let ghost lists0 = open_lists@;
                let ghost tokens0 = crate::text::strings_view(tokens@);
                loop
                    invariant_except_break
                        spec_pop_to_ordered(lists0, tokens0) == spec_pop_to_ordered(
                            open_lists@,
                            crate::text::strings_view(tokens@),
                        ),
                    ensures
                        open_lists@ == spec_pop_to_ordered(lists0, tokens0).0,
                        crate::text::strings_view(tokens@) == spec_pop_to_ordered(
                            lists0,
                            tokens0,
                        ).1,
                    decreases open_lists@.len(),
                {
                    let ghost pl = open_lists@;
                    let ghost pt = crate::text::strings_view(tokens@);
                    match open_lists.pop() {
                        Some(ListType::Ordered) => {
                            proof {
                                assert(spec_pop_to_ordered(pl, pt) == (
                                    pl.drop_last(),
                                    pt,
                                ));
                            }
                            break;
                        },
                        Some(ListType::Unordered) => {
                            crate::text::push_line(tokens, "</ul>");
                            proof {
                                assert(spec_pop_to_ordered(pl, pt) == spec_pop_to_ordered(
                                    open_lists@,
                                    crate::text::strings_view(tokens@),
                                ));
                            }
                        },
                        None => {
                            break;
                        },
                    }
                }
                let mut t = String::new();
                t.append("</ol>\n");
                append_list_indent(&mut t, open_lists.len());
                t.append(markup.as_str());
                crate::text::push_line(tokens, t.as_str());
                open_markdown_block_stack.pop();
            }
            *current_indentation = indentation;
        },
        LineType::UnorderedListItem => {
            if open_lists.is_empty() {
                open_lists.push(ListType::Unordered);
                let mut t = String::new();
                t.append("<ul>\n  ");
                t.append(markup.as_str());
                crate::text::push_line(tokens, t.as_str());
            } else if indentation > *current_indentation {
                open_lists.push(ListType::Unordered);
                let mut t = String::new();
                t.append("<ul>\n");
                append_list_indent(&mut t, open_lists.len());
                t.append(markup.as_str());
                crate::text::push_line(tokens, t.as_str());
            } else if indentation == *current_indentation {
                let switching = match open_lists.peek() {
                    Some(t) => *t == ListType::Ordered,
                    None => false,
                };
                if switching {
                    open_lists.pop();
                    crate::text::push_line(tokens, "</ol>");
                    open_markdown_block_stack.pop();
                    open_lists.push(ListType::Unordered);
                    let mut t = String::new();
                    t.append("<ul>\n  ");
                    t.append(markup.as_str());
                    crate::text::push_line(tokens, t.as_str());
                } else {
                    let mut t = String::new();
                    append_list_indent(&mut t, open_lists.len());
                    t.append(markup.as_str());
                    crate::text::push_line(tokens, t.as_str());
                }
            } else {
                let ghost lists0 = open_lists@;
                let ghost md0 = open_markdown_block_stack@;
                let ghost tokens0 = crate::text::strings_view(tokens@);
                loop
                    invariant_except_break
                        spec_pop_to_unordered(lists0, md0, tokens0) == spec_pop_to_unordered(
                            open_lists@,
                            open_markdown_block_stack@,
                            crate::text::strings_view(tokens@),
                        ),
                    ensures
                        open_lists@ == spec_pop_to_unordered(lists0, md0, tokens0).0,
                        open_markdown_block_stack@ == spec_pop_to_unordered(
                            lists0,
                            md0,
                            tokens0,
                        ).1,
                        crate::text::strings_view(tokens@) == spec_pop_to_unordered(
                            lists0,
                            md0,
                            tokens0,
                        ).2,
                    decreases open_lists@.len(),
                {
                    let ghost pl = open_lists@;
                    let ghost pm = open_markdown_block_stack@;
                    let ghost pt = crate::text::strings_view(tokens@);
                    match open_lists.pop() {
                        Some(ListType::Unordered) => {
                            proof {
                                assert(spec_pop_to_unordered(pl, pm, pt) == (
                                    pl.drop_last(),
                                    pm,
                                    pt,
                                ));
                            }
                            break;
                        },
                        Some(ListType::Ordered) => {
                            crate::text::push_line(tokens, "</ol>");
                            open_markdown_block_stack.pop();
                            proof {
                                assert(spec_pop_to_unordered(pl, pm, pt) == spec_pop_to_unordered(
                                    open_lists@,
                                    open_markdown_block_stack@,
                                    crate::text::strings_view(tokens@),
                                ));
                            }
                        },
                        None => {
                            break;
                        },
                    }
                }
                let mut t = String::new();
                t.append("</ul>\n");
                append_list_indent(&mut t, open_lists.len());
                t.append(markup.as_str());
                crate::text::push_line(tokens, t.as_str());
            }
            *current_indentation = indentation;
        },
        _ => {},
    }
}

/// Applies one classified line to the driver's state: the stack
/// transitions, the kind set, the emitted line, and, when a guide closes,
/// the serialized model appended to the prepared preamble markup. While no
/// guide model exists the effect equals the spec-level transition.
#[verifier::rlimit(100)]
#[verifier::spinoff_prover]
fn apply_tag(
    markup: String,
    line_type: LineType,
    indentation: usize,
    current_indentation: &mut usize,
    open_lists: &mut crate::utility::stack::Stack<ListType>,
    open_markdown_block_stack: &mut crate::utility::stack::Stack<MarkdownBlock>,
    open_html_block_element_stack: &mut crate::utility::stack::Stack<HTMLBlockElementType>,
    register: &mut crate::parser::jsx::JSXComponentRegister,
    kinds: &mut crate::parser::frontmatter::ComponentKinds,
    tokens: &mut Vec<String>,
    astro_frontmatter_markup: &mut Vec<String>,
)
    ensures
        ({
            let post = spec_apply_tag(
                scan_view(
                    *old(current_indentation) as int,
                    old(open_lists)@,
                    old(open_markdown_block_stack)@,
                    old(open_html_block_element_stack)@,
                    old(register).components@,
                    *old(kinds),
                    crate::text::strings_view(old(tokens)@),
                ),
                markup@,
                line_type,
                indentation as int,
            );
            &&& *final(current_indentation) as int == post.indentation
            &&& final(open_lists)@ == post.lists
            &&& final(open_markdown_block_stack)@ == post.markdown
            &&& final(open_html_block_element_stack)@ == post.html
            &&& final(register).components@ == post.components
            &&& *final(kinds) == post.kinds
            &&& crate::text::strings_view(final(tokens)@) == post.tokens
        }),
        final(register).how_to == old(register).how_to,
        line_type != LineType::HowTo ==> final(astro_frontmatter_markup)@ == old(
            astro_frontmatter_markup,
        )@,
        line_type == LineType::HowTo ==> (match old(register).how_to {
            None => final(astro_frontmatter_markup)@ == old(astro_frontmatter_markup)@,
            Some(h) => crate::text::strings_view(final(astro_frontmatter_markup)@)
                == crate::text::strings_view(old(astro_frontmatter_markup)@)
                + crate::parser::jsx::spec_howto_markup(h),
        }),
{
    match line_type {
        LineType::OrderedList | LineType::OrderedListItemOpen | LineType::UnorderedListItem => {
            apply_list_tag(
                markup,
                line_type,
                indentation,
                current_indentation,
                open_lists,
                open_markdown_block_stack,
                tokens,
                Ghost(
                    scan_view(
                        *old(current_indentation) as int,
                        old(open_lists)@,
                        old(open_markdown_block_stack)@,
                        old(open_html_block_element_stack)@,
                        old(register).components@,
                        *old(kinds),
                        crate::text::strings_view(old(tokens)@),
                    ),
                ),
            );
        },
        LineType::Poll => {
            kinds.poll = true;
            register.pop();
            crate::text::push_line(tokens, markup.as_str());
        },
        LineType::Video => {
            kinds.video = true;
            register.pop();
            crate::text::push_line(tokens, markup.as_str());
        },
        LineType::FencedCodeBlock | LineType::CodeFragment => {
            kinds.code_fragment = true;
            register.pop();
            crate::text::push_line(tokens, markup.as_str());
        },
        LineType::HowTo => {
            kinds.how_to = true;
            register.pop();
            crate::text::push_line(tokens, markup.as_str());
            let guide_lines: Option<Vec<String>> = match register.how_to() {
                Some(h) => Some(h.astro_frontmatter_markup()),
                None => None,
            };
            match guide_lines {
                Some(mut gl) => {
                    let ghost pre_astro = astro_frontmatter_markup@;
                    let ghost glv = gl@;
                    astro_frontmatter_markup.append(&mut gl);
                    proof {
                        assert(crate::text::strings_view(astro_frontmatter_markup@)
                            =~= crate::text::strings_view(pre_astro)
                            + crate::text::strings_view(glv));
                    }
                },
                None => {},
            }
        },
        LineType::HowToSection | LineType::HowToStep | LineType::HowToDirection => {
            register.pop();
            crate::text::push_line(tokens, markup.as_str());
        },
        LineType::Image => {
            kinds.image = true;
            crate::text::push_line(tokens, markup.as_str());
        },
        LineType::Questions => {
            kinds.questions = true;
            crate::text::push_line(tokens, markup.as_str());
        },
        LineType::GatsbyNotMaintained => {
            kinds.gatsby_not_maintained = true;
            crate::text::push_line(tokens, markup.as_str());
        },
        LineType::Tweet => {
            kinds.tweet = true;
            crate::text::push_line(tokens, markup.as_str());
        },
        LineType::HTMLBlockLevelComment | LineType::HTMLDescriptionList | LineType::HTMLDivBlock
            | LineType::HTMLFigureBlock | LineType::HTMLTableBody => {
            open_html_block_element_stack.pop();
            crate::text::push_line(tokens, markup.as_str());
        },
        LineType::FencedCodeBlockOpen => {
            push_if_not_top(register, crate::parser::jsx::JSXComponentType::FencedCodeBlock);
            crate::text::push_line(tokens, markup.as_str());
        },
        LineType::CodeFragmentOpen => {
            push_if_not_top(register, crate::parser::jsx::JSXComponentType::CodeFragment);
            crate::text::push_line(tokens, markup.as_str());
        },
        LineType::CodeFragmentOpening => {
            push_if_not_top(register, crate::parser::jsx::JSXComponentType::CodeFragmentOpening);
            crate::text::push_line(tokens, markup.as_str());
        },
        LineType::HowToOpen => {
            complete_opening(
                register,
                crate::parser::jsx::JSXComponentType::HowToOpening,
                crate::parser::jsx::JSXComponentType::HowTo,
            );
            crate::text::push_line(tokens, markup.as_str());
        },
        LineType::HowToOpening => {
            push_if_not_top(register, crate::parser::jsx::JSXComponentType::HowToOpening);
            crate::text::push_line(tokens, markup.as_str());
        },
        LineType::HowToSectionOpen => {
            complete_opening(
                register,
                crate::parser::jsx::JSXComponentType::HowToSectionOpening,
                crate::parser::jsx::JSXComponentType::HowToSection,
            );
            crate::text::push_line(tokens, markup.as_str());
        },
        LineType::HowToSectionOpening => {
            push_if_not_top(register, crate::parser::jsx::JSXComponentType::HowToSectionOpening);
            crate::text::push_line(tokens, markup.as_str());
        },
        LineType::HowToStepOpen => {
            complete_opening(
                register,
                crate::parser::jsx::JSXComponentType::HowToStepOpening,
                crate::parser::jsx::JSXComponentType::HowToStep,
            );
            crate::text::push_line(tokens, markup.as_str());
        },
        LineType::HowToStepOpening => {
            push_if_not_top(register, crate::parser::jsx::JSXComponentType::HowToStepOpening);
            crate::text::push_line(tokens, markup.as_str());
        },
        LineType::HowToDirectionOpen => {
            complete_opening(
                register,
                crate::parser::jsx::JSXComponentType::HowToDirectionOpening,
                crate::parser::jsx::JSXComponentType::HowToDirection,
            );
            crate::text::push_line(tokens, markup.as_str());
        },
        LineType::HowToDirectionOpening => {
            push_if_not_top(
                register,
                crate::parser::jsx::JSXComponentType::HowToDirectionOpening,
            );
            crate::text::push_line(tokens, markup.as_str());
        },
        LineType::PollOpen => {
            kinds.poll = true;
            push_if_not_top(register, crate::parser::jsx::JSXComponentType::Poll);
            crate::text::push_line(tokens, markup.as_str());
        },
        LineType::PollOpening => {
            push_if_not_top(register, crate::parser::jsx::JSXComponentType::PollOpening);
            crate::text::push_line(tokens, markup.as_str());
        },
        LineType::VideoOpen => {
            complete_opening(
                register,
                crate::parser::jsx::JSXComponentType::VideoOpening,
                crate::parser::jsx::JSXComponentType::Video,
            );
            crate::text::push_line(tokens, markup.as_str());
        },
        LineType::VideoOpening => {
            push_if_not_top(register, crate::parser::jsx::JSXComponentType::VideoOpening);
            crate::text::push_line(tokens, markup.as_str());
        },
        LineType::HTMLBlockLevelCommentOpen => {
            push_html_if_not_top(open_html_block_element_stack, HTMLBlockElementType::Comment);
            crate::text::push_line(tokens, markup.as_str());
        },
        LineType::HTMLDescriptionListOpen => {
            push_html_if_not_top(
                open_html_block_element_stack,
                HTMLBlockElementType::DescriptionList,
            );
            crate::text::push_line(tokens, markup.as_str());
        },
        LineType::HTMLDivBlockOpen => {
            push_html_if_not_top(open_html_block_element_stack, HTMLBlockElementType::Div);
            crate::text::push_line(tokens, markup.as_str());
        },
        LineType::HTMLFigureBlockOpen => {
            push_html_if_not_top(open_html_block_element_stack, HTMLBlockElementType::Figure);
            crate::text::push_line(tokens, markup.as_str());
        },
        LineType::HTMLTableHeadOpen => {
            push_html_if_not_top(open_html_block_element_stack, HTMLBlockElementType::TableHead);
            crate::text::push_line(tokens, markup.as_str());
        },
        LineType::HTMLTableBodyOpen => {
            let top = match open_html_block_element_stack.peek() {
                Some(b) => Some(*b),
                None => None,
            };
            if top != Some(HTMLBlockElementType::TableBody) {
                open_html_block_element_stack.pop();
                open_html_block_element_stack.push(HTMLBlockElementType::TableBody);
            }
            crate::text::push_line(tokens, markup.as_str());
        },
        _ => {
            crate::text::push_line(tokens, markup.as_str());
        },
    }
}

/// Classifies one line against the tops of the three open-construct
/// stacks, growing the guide model where the dispatcher does; the result
/// matches the spec-level classification, except that a guide line's
/// outcome is left to the dispatcher's own contract.
#[verifier::rlimit(100)]
#[verifier::spinoff_prover]
fn classify_line(
    line: &str,
    open_markdown_block_stack: &crate::utility::stack::Stack<MarkdownBlock>,
    open_html_block_element_stack: &crate::utility::stack::Stack<HTMLBlockElementType>,
    register: &mut crate::parser::jsx::JSXComponentRegister,
    Ghost(st): Ghost<ScanSt>,
) -> (r: Result<Option<(String, LineType, usize)>, MdError>)
    requires
        st.markdown == open_markdown_block_stack@,
        st.html == open_html_block_element_stack@,
        st.components == old(register).components@,
    ensures
        final(register).components@ == old(register).components@,
        ({
            let cls = spec_scan_classify(st, line@);
            match cls {
                ClassOut::Guide => true,
                ClassOut::Fail { e } => (r matches Err(e2) && e2 == e) && final(register).how_to
                    == old(register).how_to,
                ClassOut::Line { parsed } => final(register).how_to == old(register).how_to && (
                match parsed {
                    Some((m, lt, d)) => r matches Ok(Some((rm, rt, rd))) && rm@ == m && rt == lt
                        && rd as int == d,
                    None => r matches Ok(x) && x is None,
                }),
            }
        }),
{
    let md_top: Option<MarkdownBlock> = match open_markdown_block_stack.peek() {
        Some(b) => Some(*b),
        None => None,
    };
    proof {
        assert(md_top == stack_top(st.markdown));
    }
    match parse_open_markdown_block(line, md_top) {
        Err(e) => {
            return Err(e);
        },
        Ok(Some(v)) => {
            return Ok(Some(v));
        },
        Ok(None) => {},
    }
    let html_top: Option<HTMLBlockElementType> = match open_html_block_element_stack.peek() {
        Some(b) => Some(*b),
        None => None,
    };
    proof {
        assert(html_top == stack_top(st.html));
    }
    match parse_open_html_block(line, html_top) {
        Err(e) => {
            return Err(e);
        },
        Ok(Some((m, lt, d))) => {
            if lt == LineType::HTMLDivBlockOpen {
                return recognize_line(line);
            }
            return Ok(Some((m, lt, d)));
        },
        Ok(None) => {},
    }
    proof {
        assert(stack_top(st.components) == if register.components@.len() == 0 {
            None::<crate::parser::jsx::JSXComponentType>
        } else {
            Some(register.components@.last())
        });
    }
    match crate::parser::jsx::parse_open_jsx_block(line, register) {
        Err(e) => {
            return Err(e);
        },
        Ok(Some(v)) => {
            return Ok(Some(v));
        },
        Ok(None) => {},
    }
    recognize_line(line)
}

/// Runs the whole compiler core over a document's lines: skips the front
/// matter, classifies every line against the three open-construct stacks,
/// accumulates the generated body and the present component kinds, and
/// forms the generated preamble. No output exists on an error: the result
/// alone carries the preamble and body lines. For every document that
/// opens no guide construct the scan fold pins the body and the preamble
/// exactly; a guide document is covered by the dispatcher's own contract.
#[verifier::rlimit(100)]
#[verifier::spinoff_prover]
pub fn process(lines: &Vec<String>, slug: &str) -> (r: Result<
    (Vec<String>, Vec<String>),
    MdError,
>)
    requires
        lines@.len() < usize::MAX,
    ensures
        r matches Ok((preamble, body)) ==> preamble@.len() >= 2 && preamble@[0]@ == "---"@
            && preamble@.last()@ == "---\n"@,
        ({
            let ls = crate::text::strings_view(lines@);
            match spec_scan(ls, spec_fm_skip(ls, 0, false), scan_init()) {
                ScanStep::Failure { e } => r matches Err(e2) && e2 == e,
                ScanStep::Next { st } => ({
                    let (md2, tokens2) = spec_close_lists(st.lists, st.markdown, st.tokens);
                    r matches Ok((preamble, body)) && crate::text::strings_view(body@) == tokens2
                        && crate::text::strings_view(preamble@)
                        == crate::parser::frontmatter::spec_astro_frontmatter(
                        st.kinds,
                        Seq::empty(),
                        slug@,
                    )
                }),
                ScanStep::GuideLine => true,
            }
        }),
{
    let ghost ls = crate::text::strings_view(lines@);
    let skip = parse_frontmatter(lines);
    let ghost skipg: int = skip as int;
    let n = lines.len();
    let mut tokens: Vec<String> = Vec::new();
    let mut current_indentation: usize = 0;
    let mut open_lists: crate::utility::stack::Stack<ListType> =
        crate::utility::stack::Stack::new();
    let mut register = crate::parser::jsx::JSXComponentRegister::new();
    let mut open_html_block_element_stack: crate::utility::stack::Stack<HTMLBlockElementType> =
        crate::utility::stack::Stack::new();
    let mut open_markdown_block_stack: crate::utility::stack::Stack<MarkdownBlock> =
        crate::utility::stack::Stack::new();
    let mut astro_frontmatter_markup: Vec<String> = Vec::new();
    let mut kinds = crate::parser::frontmatter::ComponentKinds::new();
    let mut i: usize = skip;
    let ghost mut bailed = false;
    proof {
        assert(crate::text::strings_view(tokens@) =~= Seq::<Seq<char>>::empty());
        assert(crate::text::strings_view(astro_frontmatter_markup@) =~= Seq::<Seq<char>>::empty());
    }
    while i < n
        invariant
            n == lines@.len(),
            ls == crate::text::strings_view(lines@),
            skipg == spec_fm_skip(ls, 0, false),
            !bailed ==> register.how_to is None && astro_frontmatter_markup@.len() == 0
                && spec_scan(ls, skipg, scan_init()) == spec_scan(
                ls,
                i as int,
                scan_view(
                    current_indentation as int,
                    open_lists@,
                    open_markdown_block_stack@,
                    open_html_block_element_stack@,
                    register.components@,
                    kinds,
                    crate::text::strings_view(tokens@),
                ),
            ),
            bailed ==> spec_scan(ls, skipg, scan_init()) == ScanStep::GuideLine,
        decreases n - i,
    {
        let line = lines[i].as_str();
        let ghost pre = scan_view(
            current_indentation as int,
            open_lists@,
            open_markdown_block_stack@,
            open_html_block_element_stack@,
            register.components@,
            kinds,
            crate::text::strings_view(tokens@),
        );
        proof {
            assert(ls.len() == lines@.len());
            assert(ls[i as int] == line@);
        }
        let parsed: Option<(String, LineType, usize)> = match classify_line(
            line,
            &open_markdown_block_stack,
            &open_html_block_element_stack,
            &mut register,
            Ghost(pre),
        ) {
            Err(e) => {
                proof {
                    if !bailed {
                        match spec_scan_classify(pre, line@) {
                            ClassOut::Guide => {
                                assert(spec_scan_step(pre, ls[i as int])
                                    == ScanStep::GuideLine);
                                assert(spec_scan(ls, i as int, pre) == ScanStep::GuideLine);
                                assert(spec_scan(ls, skipg, scan_init())
                                    == ScanStep::GuideLine);
                                bailed = true;
                            },
                            ClassOut::Fail { e: e2 } => {
                                assert(spec_scan_step(pre, ls[i as int]) == ScanStep::Failure {
                                    e: e2,
                                });
                                assert(spec_scan(ls, i as int, pre) == ScanStep::Failure {
                                    e: e2,
                                });
                                assert(spec_scan(ls, skipg, scan_init()) == ScanStep::Failure {
                                    e: e2,
                                });
                            },
                            ClassOut::Line { parsed } => {},
                        }
                    }
                }
                return Err(e);
            },
            Ok(v) => {
                proof {
                    if !bailed && spec_scan_classify(pre, line@) is Guide {
                        assert(spec_scan_step(pre, ls[i as int]) == ScanStep::GuideLine);
                        assert(spec_scan(ls, i as int, pre) == ScanStep::GuideLine);
                        assert(spec_scan(ls, skipg, scan_init()) == ScanStep::GuideLine);
                        bailed = true;
                    }
                }
                v
            },
        };
        match parsed {
            Some((markup, line_type, indentation)) => {
                proof {
                    if !bailed {
                        assert(spec_scan_classify(pre, line@) == ClassOut::Line {
                            parsed: Some((markup@, line_type, indentation as int)),
                        });
                    }
                }
                let ghost mv = markup@;
                apply_tag(
                    markup,
                    line_type,
                    indentation,
                    &mut current_indentation,
                    &mut open_lists,
                    &mut open_markdown_block_stack,
                    &mut open_html_block_element_stack,
                    &mut register,
                    &mut kinds,
                    &mut tokens,
                    &mut astro_frontmatter_markup,
                );
                proof {
                    if !bailed {
                        let post = spec_apply_tag(pre, mv, line_type, indentation as int);
                        assert(spec_scan_step(pre, ls[i as int]) == ScanStep::Next { st: post });
                        assert(scan_view(
                            current_indentation as int,
                            open_lists@,
                            open_markdown_block_stack@,
                            open_html_block_element_stack@,
                            register.components@,
                            kinds,
                            crate::text::strings_view(tokens@),
                        ) == post);
                        assert(spec_scan(ls, i as int, pre) == spec_scan(ls, i + 1, post));
                    }
                }
            },
            None => {
                proof {
                    if !bailed {
                        assert(spec_scan_classify(pre, line@) == ClassOut::Line {
                            parsed: None::<(Seq<char>, LineType, int)>,
                        });
                    }
                }
                let ghost lists0 = open_lists@;
                let ghost md0 = open_markdown_block_stack@;
                let ghost tokens0 = crate::text::strings_view(tokens@);
                loop
                    invariant_except_break
                        spec_close_lists(lists0, md0, tokens0) == spec_close_lists(
                            open_lists@,
                            open_markdown_block_stack@,
                            crate::text::strings_view(tokens@),
                        ),
                    ensures
                        open_lists@.len() == 0,
                        open_markdown_block_stack@ == spec_close_lists(lists0, md0, tokens0).0,
                        crate::text::strings_view(tokens@) == spec_close_lists(
                            lists0,
                            md0,
                            tokens0,
                        ).1,
                    decreases open_lists@.len(),
                {
                    let ghost pl = open_lists@;
                    let ghost pm = open_markdown_block_stack@;
                    let ghost pt = crate::text::strings_view(tokens@);
                    match open_lists.pop() {
                        Some(ListType::Unordered) => {
                            crate::text::push_line(&mut tokens, "</ul>");
                            proof {
                                assert(spec_close_lists(pl, pm, pt) == spec_close_lists(
                                    open_lists@,
                                    open_markdown_block_stack@,
                                    crate::text::strings_view(tokens@),
                                ));
                            }
                        },
                        Some(ListType::Ordered) => {
                            crate::text::push_line(&mut tokens, "</ol>");
                            open_markdown_block_stack.pop();
                            proof {
                                assert(spec_close_lists(pl, pm, pt) == spec_close_lists(
                                    open_lists@,
                                    open_markdown_block_stack@,
                                    crate::text::strings_view(tokens@),
                                ));
                            }
                        },
                        None => {
                            break;
                        },
                    }
                }
                proof {
                    if !bailed {
                        let (md2, tokens2) = spec_close_lists(lists0, md0, tokens0);
                        let post = ScanSt { lists: Seq::empty(), markdown: md2, tokens: tokens2, ..pre };
                        assert(spec_scan_step(pre, ls[i as int]) == ScanStep::Next { st: post });
                        assert(open_lists@ =~= Seq::<ListType>::empty());
                        assert(scan_view(
                            current_indentation as int,
                            open_lists@,
                            open_markdown_block_stack@,
                            open_html_block_element_stack@,
                            register.components@,
                            kinds,
                            crate::text::strings_view(tokens@),
                        ) == post);
                        assert(spec_scan(ls, i as int, pre) == spec_scan(ls, i + 1, post));
                    }
                }
            },
        }
        i = i + 1;
    }
    let ghost fin = scan_view(
        current_indentation as int,
        open_lists@,
        open_markdown_block_stack@,
        open_html_block_element_stack@,
        register.components@,
        kinds,
        crate::text::strings_view(tokens@),
    );
    let ghost lists0 = open_lists@;
    let ghost md0 = open_markdown_block_stack@;
    let ghost tokens0 = crate::text::strings_view(tokens@);
    loop
        invariant_except_break
            spec_close_lists(lists0, md0, tokens0) == spec_close_lists(
                open_lists@,
                open_markdown_block_stack@,
                crate::text::strings_view(tokens@),
            ),
        ensures
            open_lists@.len() == 0,
            open_markdown_block_stack@ == spec_close_lists(lists0, md0, tokens0).0,
            crate::text::strings_view(tokens@) == spec_close_lists(lists0, md0, tokens0).1,
        decreases open_lists@.len(),
    {
        let ghost pl = open_lists@;
        let ghost pm = open_markdown_block_stack@;
        let ghost pt = crate::text::strings_view(tokens@);
        match open_lists.pop() {
            Some(ListType::Unordered) => {
                crate::text::push_line(&mut tokens, "</ul>");
                proof {
                    assert(spec_close_lists(pl, pm, pt) == spec_close_lists(
                        open_lists@,
                        open_markdown_block_stack@,
                        crate::text::strings_view(tokens@),
                    ));
                }
            },
            Some(ListType::Ordered) => {
                crate::text::push_line(&mut tokens, "</ol>");
                open_markdown_block_stack.pop();
                proof {
                    assert(spec_close_lists(pl, pm, pt) == spec_close_lists(
                        open_lists@,
                        open_markdown_block_stack@,
                        crate::text::strings_view(tokens@),
                    ));
                }
            },
            None => {
                break;
            },
        }
    }
    let astro_frontmatter = crate::parser::frontmatter::form_astro_frontmatter(
        &kinds,
        &astro_frontmatter_markup,
        slug,
    );
    proof {
        let pre = crate::text::strings_view(astro_frontmatter@);
        assert(pre[0] == "---"@);
        assert(pre.last() == "---\n"@);
        assert(pre.len() >= 2);
        assert(skipg == spec_fm_skip(ls, 0, false));
        if !bailed {
            assert(spec_scan(ls, n as int, fin) == ScanStep::Next { st: fin });
            assert(spec_scan(ls, skipg, scan_init()) == ScanStep::Next { st: fin });
            assert(crate::text::strings_view(astro_frontmatter_markup@) =~= Seq::<
                Seq<char>,
            >::empty());
        }
    }
    Ok((astro_frontmatter, tokens))
}


/// Two spaces per open list level, the indentation of a nested list item.
pub open spec fn spec_list_indent(levels: int) -> Seq<char>
    decreases levels,
{
    if levels <= 0 {
        Seq::empty()
    } else {
        spec_list_indent(levels - 1) + "  "@
    }
}

/// Appends two spaces per open list level.
fn append_list_indent(t: &mut String, levels: usize)
    ensures
        final(t)@ == old(t)@ + spec_list_indent(levels as int),
{
    let mut i: usize = 0;
    proof {
        assert(t@ =~= old(t)@ + spec_list_indent(0));
    }
    while i < levels
        invariant
            i <= levels,
            t@ == old(t)@ + spec_list_indent(i as int),
        decreases levels - i,
    {
        t.append("  ");
        i = i + 1;
    }
}

/// Pushes a component unless it is already on top: the idempotent open.
fn push_if_not_top(
    register: &mut crate::parser::jsx::JSXComponentRegister,
    c: crate::parser::jsx::JSXComponentType,
)
    ensures
        final(register).how_to == old(register).how_to,
        final(register).components@.len() > 0 && final(register).components@.last() == c,
        final(register).components@ == stack_push_if_not_top(old(register).components@, c),
{
    let top_matches: bool = match register.peek() {
        Some(t) => *t == c,
        None => false,
    };
    if !top_matches {
        register.push(c);
    }
}

/// Replaces a still-opening marker on top by the completed one, or pushes
/// the completed marker unless it is already on top.
fn complete_opening(
    register: &mut crate::parser::jsx::JSXComponentRegister,
    opening: crate::parser::jsx::JSXComponentType,
    complete: crate::parser::jsx::JSXComponentType,
)
    requires
        opening != complete,
    ensures
        final(register).how_to == old(register).how_to,
        final(register).components@.len() > 0 && final(register).components@.last() == complete,
        final(register).components@ == stack_complete(
            old(register).components@,
            opening,
            complete,
        ),
{
    let top: Option<crate::parser::jsx::JSXComponentType> = match register.peek() {
        Some(t) => Some(*t),
        None => None,
    };
    if top == Some(opening) {
        register.pop();
        register.push(complete);
    } else if top != Some(complete) {
        register.push(complete);
    }
}

/// Pushes an HTML block element unless it is already on top.
fn push_html_if_not_top(
    stack: &mut crate::utility::stack::Stack<HTMLBlockElementType>,
    c: HTMLBlockElementType,
)
    ensures
        final(stack)@.len() > 0 && final(stack)@.last() == c,
        final(stack)@ == stack_push_if_not_top(old(stack)@, c),
{
    let top_matches: bool = match stack.peek() {
        Some(t) => *t == c,
        None => false,
    };
    if !top_matches {
        stack.push(c);
    }
}

} // verus!

verus! {

/// The spec-level scan state: the current indentation, the three
/// open-construct stacks, the kind set and the emitted body lines. The
/// guide model is deliberately not part of it: a line that engages the
/// guide machinery ends the fold (see [`ScanStep::GuideLine`]).
pub struct ScanSt {
    pub indentation: int,
    pub lists: Seq<ListType>,
    pub markdown: Seq<MarkdownBlock>,
    pub html: Seq<HTMLBlockElementType>,
    pub components: Seq<crate::parser::jsx::JSXComponentType>,
    pub kinds: crate::parser::frontmatter::ComponentKinds,
    pub tokens: Seq<Seq<char>>,
}

/// The outcome of scanning one line, or of a whole scan.
pub enum ScanStep {
    /// The line engages the guide machinery, whose model the fold leaves
    /// to the dispatcher's own contract.
    GuideLine,
    /// The authoring error that aborts the document.
    Failure { e: MdError },
    /// The state after the line.
    Next { st: ScanSt },
}

/// The classification a scan step works from.
pub enum ClassOut {
    Guide,
    Fail { e: MdError },
    Line { parsed: Option<(Seq<char>, LineType, int)> },
}

/// The scan state of a fresh document.
pub open spec fn scan_init() -> ScanSt {
    ScanSt {
        indentation: 0,
        lists: Seq::empty(),
        markdown: Seq::empty(),
        html: Seq::empty(),
        components: Seq::empty(),
        kinds: crate::parser::frontmatter::ComponentKinds {
            code_fragment: false,
            how_to: false,
            gatsby_not_maintained: false,
            image: false,
            poll: false,
            questions: false,
            tweet: false,
            video: false,
        },
        tokens: Seq::empty(),
    }
}

/// The element on top of a spec-level stack.
pub open spec fn stack_top<T>(s: Seq<T>) -> Option<T> {
    if s.len() == 0 {
        None
    } else {
        Some(s.last())
    }
}

/// Pops a spec-level stack; empty stays empty.
pub open spec fn stack_pop<T>(s: Seq<T>) -> Seq<T> {
    if s.len() == 0 {
        s
    } else {
        s.drop_last()
    }
}

/// The idempotent open: pushes unless the element is already on top.
pub open spec fn stack_push_if_not_top<T>(s: Seq<T>, x: T) -> Seq<T> {
    if s.len() > 0 && s.last() == x {
        s
    } else {
        s.push(x)
    }
}

/// Replaces a still-opening marker on top by the completed one, or pushes
/// the completed marker unless it is already on top.
pub open spec fn stack_complete<T>(s: Seq<T>, opening: T, complete: T) -> Seq<T> {
    if s.len() > 0 && s.last() == opening {
        s.drop_last().push(complete)
    } else if s.len() > 0 && s.last() == complete {
        s
    } else {
        s.push(complete)
    }
}

/// Whether a component keeps the guide machinery open.
pub open spec fn is_guide_component(c: crate::parser::jsx::JSXComponentType) -> bool {
    match c {
        crate::parser::jsx::JSXComponentType::HowTo => true,
        crate::parser::jsx::JSXComponentType::HowToOpening => true,
        crate::parser::jsx::JSXComponentType::HowToSection => true,
        crate::parser::jsx::JSXComponentType::HowToSectionOpening => true,
        crate::parser::jsx::JSXComponentType::HowToStep => true,
        crate::parser::jsx::JSXComponentType::HowToStepOpening => true,
        crate::parser::jsx::JSXComponentType::HowToDirection => true,
        crate::parser::jsx::JSXComponentType::HowToDirectionOpening => true,
        _ => false,
    }
}

/// The first-line recognizer chain as a classification.
pub open spec fn chain_class(t: Seq<char>) -> ClassOut {
    match spec_mdx_line(t) {
        Err(e) => ClassOut::Fail { e },
        Ok(o) => ClassOut::Line { parsed: o },
    }
}

/// The open-component continuation of one line, for the tops the fold
/// models; mirrors the dispatcher's contract case by case.
pub open spec fn spec_scan_component(
    top: crate::parser::jsx::JSXComponentType,
    t: Seq<char>,
) -> ClassOut {
    if is_guide_component(top) {
        ClassOut::Guide
    } else if top == crate::parser::jsx::JSXComponentType::PollOpening {
        if t.len() == 0 {
            chain_class(t)
        } else {
            ClassOut::Line {
                parsed: Some((t, crate::parser::jsx::spec_poll_opening_lt(t), 0)),
            }
        }
    } else if top == crate::parser::jsx::JSXComponentType::VideoOpening {
        if t.len() == 0 {
            chain_class(t)
        } else {
            let (attrs, ty) = crate::parser::jsx::spec_jsx_opening_line(t);
            ClassOut::Line {
                parsed: Some(
                    (
                        t,
                        match ty {
                            HTMLTagType::Opening => LineType::VideoOpen,
                            HTMLTagType::SelfClosing => LineType::Video,
                            _ => LineType::VideoOpening,
                        },
                        0,
                    ),
                ),
            }
        }
    } else if top == crate::parser::jsx::JSXComponentType::FencedCodeBlock {
        if crate::parser::fenced::spec_fence_close(t) {
            ClassOut::Line { parsed: Some(("  `} />"@, LineType::FencedCodeBlock, 0)) }
        } else {
            ClassOut::Line {
                parsed: Some(
                    (crate::parser::inline::spec_escape_code(t), LineType::FencedCodeBlockOpen, 0),
                ),
            }
        }
    } else {
        match spec_own_close(top, t) {
            Some(lt) => ClassOut::Line { parsed: Some((t, lt, 0)) },
            None => if spec_any_component_close(t) {
                ClassOut::Fail { e: MdError::ComponentNameMismatch }
            } else {
                ClassOut::Line { parsed: Some((t, LineType::JSXComponent, 0)) }
            },
        }
    }
}

/// The top component's own closing line, when this line is one.
pub open spec fn spec_own_close(
    top: crate::parser::jsx::JSXComponentType,
    t: Seq<char>,
) -> Option<LineType> {
    if (top == crate::parser::jsx::JSXComponentType::CodeFragment || top
        == crate::parser::jsx::JSXComponentType::CodeFragmentOpening)
        && crate::parser::jsx::spec_jsx_last_line(t, "CodeFragment"@) is Some {
        Some(LineType::CodeFragment)
    } else if top == crate::parser::jsx::JSXComponentType::Poll
        && crate::parser::jsx::spec_jsx_last_line(t, "Poll"@) is Some {
        Some(LineType::Poll)
    } else if top == crate::parser::jsx::JSXComponentType::Video
        && crate::parser::jsx::spec_jsx_last_line(t, "Video"@) is Some {
        Some(LineType::Video)
    } else {
        None
    }
}

/// Whether the line is any component's dedicated closing line.
pub open spec fn spec_any_component_close(t: Seq<char>) -> bool {
    crate::parser::jsx::spec_jsx_last_line(t, "CodeFragment"@) is Some
        || crate::parser::jsx::spec_jsx_last_line(t, "Poll"@) is Some
        || crate::parser::jsx::spec_jsx_last_line(t, "Video"@) is Some
        || crate::parser::jsx::spec_form_jsx_last(t, "HowToStep"@)
        || crate::parser::jsx::spec_form_jsx_last(t, "HowToSection"@)
        || crate::parser::jsx::spec_form_jsx_last(t, "HowTo"@)
}

/// Classifies one line against the stacks' tops, in strict priority
/// order: an open list block, an open HTML block, an open component, then
/// the first-line recognizers.
pub open spec fn spec_scan_classify(st: ScanSt, t: Seq<char>) -> ClassOut {
    match spec_open_markdown_block(t, stack_top(st.markdown)) {
        Err(e) => ClassOut::Fail { e },
        Ok(Some(x)) => ClassOut::Line { parsed: Some(x) },
        Ok(None) => match spec_open_html_block(t, stack_top(st.html)) {
            Err(e) => ClassOut::Fail { e },
            Ok(Some((m, lt, d))) => if lt == LineType::HTMLDivBlockOpen {
                chain_class(t)
            } else {
                ClassOut::Line { parsed: Some((m, lt, d)) }
            },
            Ok(None) => match stack_top(st.components) {
                Some(top) => spec_scan_component(top, t),
                None => if crate::parser::jsx::spec_form_jsx_first(t, "HowTo"@) is Some {
                    ClassOut::Guide
                } else {
                    chain_class(t)
                },
            },
        },
    }
}

/// Closes the remaining open lists, deepest first: one closing tag per
/// level, popping the paragraph-continuation marker with each ordered
/// list.
pub open spec fn spec_close_lists(
    lists: Seq<ListType>,
    markdown: Seq<MarkdownBlock>,
    tokens: Seq<Seq<char>>,
) -> (Seq<MarkdownBlock>, Seq<Seq<char>>)
    decreases lists.len(),
{
    if lists.len() == 0 {
        (markdown, tokens)
    } else if lists.last() == ListType::Unordered {
        spec_close_lists(lists.drop_last(), markdown, tokens.push("</ul>"@))
    } else {
        spec_close_lists(lists.drop_last(), stack_pop(markdown), tokens.push("</ol>"@))
    }
}

/// Pops nested unordered lists until the ordered list on top is reached,
/// emitting one `</ul>` per level.
pub open spec fn spec_pop_to_ordered(lists: Seq<ListType>, tokens: Seq<Seq<char>>) -> (
    Seq<ListType>,
    Seq<Seq<char>>,
)
    decreases lists.len(),
{
    if lists.len() == 0 {
        (lists, tokens)
    } else if lists.last() == ListType::Ordered {
        (lists.drop_last(), tokens)
    } else {
        spec_pop_to_ordered(lists.drop_last(), tokens.push("</ul>"@))
    }
}

/// Pops nested ordered lists until the unordered list on top is reached,
/// emitting one `</ol>` per level and popping the continuation marker.
pub open spec fn spec_pop_to_unordered(
    lists: Seq<ListType>,
    markdown: Seq<MarkdownBlock>,
    tokens: Seq<Seq<char>>,
) -> (Seq<ListType>, Seq<MarkdownBlock>, Seq<Seq<char>>)
    decreases lists.len(),
{
    if lists.len() == 0 {
        (lists, markdown, tokens)
    } else if lists.last() == ListType::Unordered {
        (lists.drop_last(), markdown, tokens)
    } else {
        spec_pop_to_unordered(lists.drop_last(), stack_pop(markdown), tokens.push("</ol>"@))
    }
}

} // verus!

verus! {

/// The stack transitions and emitted lines of one classified line,
/// mirroring the driver's dispatch on the construct tag. The guide model
/// is absent: the arm that closes a guide emits no prepared markup, which
/// is exact whenever no guide construct was opened.
pub open spec fn spec_apply_tag(st: ScanSt, markup: Seq<char>, lt: LineType, depth: int) -> ScanSt {
    match lt {
        LineType::OrderedList => ScanSt {
            markdown: stack_pop(st.markdown),
            lists: stack_pop(st.lists),
            tokens: st.tokens.push(markup),
            ..st
        },
        LineType::OrderedListItemOpen => {
            let md = if stack_top(st.markdown) != Some(MarkdownBlock::OrderedList) {
                st.markdown.push(MarkdownBlock::OrderedList)
            } else {
                st.markdown
            };
            if st.lists.len() == 0 {
                ScanSt {
                    markdown: md,
                    lists: st.lists.push(ListType::Ordered),
                    tokens: st.tokens.push(markup),
                    indentation: depth,
                    ..st
                }
            } else if depth > st.indentation {
                let lists = st.lists.push(ListType::Ordered);
                ScanSt {
                    markdown: md,
                    lists,
                    tokens: st.tokens.push(
                        "<ol>\n  "@ + spec_list_indent(lists.len() as int) + markup,
                    ),
                    indentation: depth,
                    ..st
                }
            } else if depth == st.indentation {
                if stack_top(st.lists) == Some(ListType::Unordered) {
                    ScanSt {
                        markdown: md,
                        lists: stack_pop(st.lists).push(ListType::Ordered),
                        tokens: st.tokens.push("</ul>"@).push(markup),
                        indentation: depth,
                        ..st
                    }
                } else {
                    ScanSt {
                        markdown: md,
                        tokens: st.tokens.push(
                            spec_list_indent(st.lists.len() as int) + markup,
                        ),
                        indentation: depth,
                        ..st
                    }
                }
            } else {
                let (lists, tokens) = spec_pop_to_ordered(st.lists, st.tokens);
                ScanSt {
                    markdown: stack_pop(md),
                    lists,
                    tokens: tokens.push(
                        "</ol>\n"@ + spec_list_indent(lists.len() as int) + markup,
                    ),
                    indentation: depth,
                    ..st
                }
            }
        },
        LineType::UnorderedListItem => {
            if st.lists.len() == 0 {
                ScanSt {
                    lists: st.lists.push(ListType::Unordered),
                    tokens: st.tokens.push("<ul>\n  "@ + markup),
                    indentation: depth,
                    ..st
                }
            } else if depth > st.indentation {
                let lists = st.lists.push(ListType::Unordered);
                ScanSt {
                    lists,
                    tokens: st.tokens.push(
                        "<ul>\n"@ + spec_list_indent(lists.len() as int) + markup,
                    ),
                    indentation: depth,
                    ..st
                }
            } else if depth == st.indentation {
                if stack_top(st.lists) == Some(ListType::Ordered) {
                    ScanSt {
                        lists: stack_pop(st.lists).push(ListType::Unordered),
                        markdown: stack_pop(st.markdown),
                        tokens: st.tokens.push("</ol>"@).push("<ul>\n  "@ + markup),
                        indentation: depth,
                        ..st
                    }
                } else {
                    ScanSt {
                        tokens: st.tokens.push(
                            spec_list_indent(st.lists.len() as int) + markup,
                        ),
                        indentation: depth,
                        ..st
                    }
                }
            } else {
                let (lists, markdown, tokens) = spec_pop_to_unordered(
                    st.lists,
                    st.markdown,
                    st.tokens,
                );
                ScanSt {
                    lists,
                    markdown,
                    tokens: tokens.push(
                        "</ul>\n"@ + spec_list_indent(lists.len() as int) + markup,
                    ),
                    indentation: depth,
                    ..st
                }
            }
        },
        LineType::Poll => ScanSt {
            kinds: crate::parser::frontmatter::ComponentKinds { poll: true, ..st.kinds },
            components: stack_pop(st.components),
            tokens: st.tokens.push(markup),
            ..st
        },
        LineType::Video => ScanSt {
            kinds: crate::parser::frontmatter::ComponentKinds { video: true, ..st.kinds },
            components: stack_pop(st.components),
            tokens: st.tokens.push(markup),
            ..st
        },
        LineType::FencedCodeBlock | LineType::CodeFragment => ScanSt {
            kinds: crate::parser::frontmatter::ComponentKinds {
                code_fragment: true,
                ..st.kinds
            },
            components: stack_pop(st.components),
            tokens: st.tokens.push(markup),
            ..st
        },
        LineType::HowTo => ScanSt {
            kinds: crate::parser::frontmatter::ComponentKinds { how_to: true, ..st.kinds },
            components: stack_pop(st.components),
            tokens: st.tokens.push(markup),
            ..st
        },
        LineType::HowToSection | LineType::HowToStep | LineType::HowToDirection => ScanSt {
            components: stack_pop(st.components),
            tokens: st.tokens.push(markup),
            ..st
        },
        LineType::Image => ScanSt {
            kinds: crate::parser::frontmatter::ComponentKinds { image: true, ..st.kinds },
            tokens: st.tokens.push(markup),
            ..st
        },
        LineType::Questions => ScanSt {
            kinds: crate::parser::frontmatter::ComponentKinds { questions: true, ..st.kinds },
            tokens: st.tokens.push(markup),
            ..st
        },
        LineType::GatsbyNotMaintained => ScanSt {
            kinds: crate::parser::frontmatter::ComponentKinds {
                gatsby_not_maintained: true,
                ..st.kinds
            },
            tokens: st.tokens.push(markup),
            ..st
        },
        LineType::Tweet => ScanSt {
            kinds: crate::parser::frontmatter::ComponentKinds { tweet: true, ..st.kinds },
            tokens: st.tokens.push(markup),
            ..st
        },
        LineType::HTMLBlockLevelComment | LineType::HTMLDescriptionList | LineType::HTMLDivBlock
            | LineType::HTMLFigureBlock | LineType::HTMLTableBody => ScanSt {
            html: stack_pop(st.html),
            tokens: st.tokens.push(markup),
            ..st
        },
        LineType::FencedCodeBlockOpen => ScanSt {
            components: stack_push_if_not_top(
                st.components,
                crate::parser::jsx::JSXComponentType::FencedCodeBlock,
            ),
            tokens: st.tokens.push(markup),
            ..st
        },
        LineType::CodeFragmentOpen => ScanSt {
            components: stack_push_if_not_top(
                st.components,
                crate::parser::jsx::JSXComponentType::CodeFragment,
            ),
            tokens: st.tokens.push(markup),
            ..st
        },
        LineType::CodeFragmentOpening => ScanSt {
            components: stack_push_if_not_top(
                st.components,
                crate::parser::jsx::JSXComponentType::CodeFragmentOpening,
            ),
            tokens: st.tokens.push(markup),
            ..st
        },
        LineType::HowToOpen => ScanSt {
            components: stack_complete(
                st.components,
                crate::parser::jsx::JSXComponentType::HowToOpening,
                crate::parser::jsx::JSXComponentType::HowTo,
            ),
            tokens: st.tokens.push(markup),
            ..st
        },
        LineType::HowToOpening => ScanSt {
            components: stack_push_if_not_top(
                st.components,
                crate::parser::jsx::JSXComponentType::HowToOpening,
            ),
            tokens: st.tokens.push(markup),
            ..st
        },
        LineType::HowToSectionOpen => ScanSt {
            components: stack_complete(
                st.components,
                crate::parser::jsx::JSXComponentType::HowToSectionOpening,
                crate::parser::jsx::JSXComponentType::HowToSection,
            ),
            tokens: st.tokens.push(markup),
            ..st
        },
        LineType::HowToSectionOpening => ScanSt {
            components: stack_push_if_not_top(
                st.components,
                crate::parser::jsx::JSXComponentType::HowToSectionOpening,
            ),
            tokens: st.tokens.push(markup),
            ..st
        },
        LineType::HowToStepOpen => ScanSt {
            components: stack_complete(
                st.components,
                crate::parser::jsx::JSXComponentType::HowToStepOpening,
                crate::parser::jsx::JSXComponentType::HowToStep,
            ),
            tokens: st.tokens.push(markup),
            ..st
        },
        LineType::HowToStepOpening => ScanSt {
            components: stack_push_if_not_top(
                st.components,
                crate::parser::jsx::JSXComponentType::HowToStepOpening,
            ),
            tokens: st.tokens.push(markup),
            ..st
        },
        LineType::HowToDirectionOpen => ScanSt {
            components: stack_complete(
                st.components,
                crate::parser::jsx::JSXComponentType::HowToDirectionOpening,
                crate::parser::jsx::JSXComponentType::HowToDirection,
            ),
            tokens: st.tokens.push(markup),
            ..st
        },
        LineType::HowToDirectionOpening => ScanSt {
            components: stack_push_if_not_top(
                st.components,
                crate::parser::jsx::JSXComponentType::HowToDirectionOpening,
            ),
            tokens: st.tokens.push(markup),
            ..st
        },
        LineType::PollOpen => ScanSt {
            kinds: crate::parser::frontmatter::ComponentKinds { poll: true, ..st.kinds },
            components: stack_push_if_not_top(
                st.components,
                crate::parser::jsx::JSXComponentType::Poll,
            ),
            tokens: st.tokens.push(markup),
            ..st
        },
        LineType::PollOpening => ScanSt {
            components: stack_push_if_not_top(
                st.components,
                crate::parser::jsx::JSXComponentType::PollOpening,
            ),
            tokens: st.tokens.push(markup),
            ..st
        },
        LineType::VideoOpen => ScanSt {
            components: stack_complete(
                st.components,
                crate::parser::jsx::JSXComponentType::VideoOpening,
                crate::parser::jsx::JSXComponentType::Video,
            ),
            tokens: st.tokens.push(markup),
            ..st
        },
        LineType::VideoOpening => ScanSt {
            components: stack_push_if_not_top(
                st.components,
                crate::parser::jsx::JSXComponentType::VideoOpening,
            ),
            tokens: st.tokens.push(markup),
            ..st
        },
        LineType::HTMLBlockLevelCommentOpen => ScanSt {
            html: stack_push_if_not_top(st.html, HTMLBlockElementType::Comment),
            tokens: st.tokens.push(markup),
            ..st
        },
        LineType::HTMLDescriptionListOpen => ScanSt {
            html: stack_push_if_not_top(st.html, HTMLBlockElementType::DescriptionList),
            tokens: st.tokens.push(markup),
            ..st
        },
        LineType::HTMLDivBlockOpen => ScanSt {
            html: stack_push_if_not_top(st.html, HTMLBlockElementType::Div),
            tokens: st.tokens.push(markup),
            ..st
        },
        LineType::HTMLFigureBlockOpen => ScanSt {
            html: stack_push_if_not_top(st.html, HTMLBlockElementType::Figure),
            tokens: st.tokens.push(markup),
            ..st
        },
        LineType::HTMLTableHeadOpen => ScanSt {
            html: stack_push_if_not_top(st.html, HTMLBlockElementType::TableHead),
            tokens: st.tokens.push(markup),
            ..st
        },
        LineType::HTMLTableBodyOpen => ScanSt {
            html: if stack_top(st.html) == Some(HTMLBlockElementType::TableBody) {
                st.html
            } else {
                stack_pop(st.html).push(HTMLBlockElementType::TableBody)
            },
            tokens: st.tokens.push(markup),
            ..st
        },
        _ => ScanSt { tokens: st.tokens.push(markup), ..st },
    }
}

/// Scans one line: classification, then the tag-driven transition; a
/// blank or unrecognized line closes every open list.
pub open spec fn spec_scan_step(st: ScanSt, t: Seq<char>) -> ScanStep {
    match spec_scan_classify(st, t) {
        ClassOut::Guide => ScanStep::GuideLine,
        ClassOut::Fail { e } => ScanStep::Failure { e },
        ClassOut::Line { parsed } => match parsed {
            Some((m, lt, d)) => ScanStep::Next { st: spec_apply_tag(st, m, lt, d) },
            None => {
                let (markdown, tokens) = spec_close_lists(st.lists, st.markdown, st.tokens);
                ScanStep::Next {
                    st: ScanSt { lists: Seq::empty(), markdown, tokens, ..st },
                }
            },
        },
    }
}

/// The whole scan from line `i` on: the final state, or the error or
/// guide line that ended the fold.
pub open spec fn spec_scan(ls: Seq<Seq<char>>, i: int, st: ScanSt) -> ScanStep
    decreases ls.len() - i,
{
    if i < 0 || i >= ls.len() {
        ScanStep::Next { st }
    } else {
        match spec_scan_step(st, ls[i]) {
            ScanStep::Next { st: st2 } => spec_scan(ls, i + 1, st2),
            other => other,
        }
    }
}

} // verus!
