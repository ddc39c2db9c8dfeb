use mdx_astro::parser::blocks::{
    form_html_block_element_first_line, form_html_block_level_comment_first_line,
    form_html_block_level_comment_last_line, form_ordered_list_line, form_unordered_list_line,
    parse_html_block_level_comment_last_line, parse_ordered_list_text, parse_unordered_list_text,
};
use mdx_astro::parser::fenced::{
    form_fenced_code_block_first_line, parse_fenced_code_block_first_line,
};
use mdx_astro::parser::heading::{
    form_code_span_html_string, format_heading_widows, remove_html_tags, slugify_title,
};
use mdx_astro::parser::inline::{
    escape_code, form_code_span_line, form_html_anchor_element_line, form_inline_wrap_text,
    parse_href_scheme, parse_html_tag_attribute, parse_html_tag_attributes,
    parse_inline_wrap_segment, parse_inline_wrap_text, parse_up_to_inline_wrap_segment,
    segment_emphasis_line, segment_strong_emphasis_line,
};
use mdx_astro::parser::table::{
    form_table_body_last_line, form_table_body_row, form_table_head_first_line,
    form_table_head_last_line, form_table_head_row, form_table_header_row, parse_table_cell,
    parse_table_column_alignment, parse_table_header_row, parse_table_line,
};
use mdx_astro::parser::tags::{
    parse_closing_html_tag, parse_html_tag_content, parse_opening_html_tag,
    parse_opening_html_tag_end, parse_opening_html_tag_no_attributes,
    parse_opening_html_tag_start, parse_opening_html_tag_with_attributes,
    parse_self_closing_html_tag, parse_self_closing_html_tag_end,
};
use mdx_astro::html::discard_leading_whitespace;
use mdx_astro::parser::heading::parse_heading_text;
use mdx_astro::parser::jsx::{
    form_code_fragment_component_first_line, form_jsx_component_first_line,
};
use mdx_astro::parser::tags::parse_up_to_opening_html_tag;
use mdx_astro::parser::{parse_mdx_line, HTMLTagType, LineType, MdError, TableAlign};

fn s(v: &str) -> String {
    String::from(v)
}

#[test]
pub fn test_escape_code() {
    let mdx_line = "`${variable}`";
    assert_eq!(escape_code(mdx_line), "\\u0060$\\u007Bvariable\\u007D\\u0060");
}

#[test]
pub fn test_form_code_fragment_component_first_line() {
    let mdx_line = "<CodeFragment";
    assert_eq!(
        form_code_fragment_component_first_line(mdx_line),
        Some((s("<CodeFragment"), LineType::CodeFragmentOpening, 0))
    );

    let mdx_line = "<CodeFragment count={3} >";
    assert_eq!(
        form_code_fragment_component_first_line(mdx_line),
        Some((s("<CodeFragment count={3} >"), LineType::CodeFragmentOpen, 0))
    );

    let mdx_line = "<CodeFragment count={3} />";
    assert_eq!(
        form_code_fragment_component_first_line(mdx_line),
        Some((s("<CodeFragment count={3} />"), LineType::CodeFragment, 0))
    );
}

#[test]
pub fn test_form_fenced_code_block_first_line() {
    let mdx_line = "```plaintext {5,7} \".env\"";
    assert_eq!(
        form_fenced_code_block_first_line(mdx_line),
        Some((
            s("<CodeFragment\n  client:visible\n  set:html\n  language=\"plaintext\"\n  highlightLines={`{5,7}`}\n  title=\".env\"\n  code={`"),
            LineType::FencedCodeBlockOpen,
            0
        ))
    );

    let mdx_line = "```plaintext 2 {5,7} \".env\"";
    assert_eq!(
        form_fenced_code_block_first_line(mdx_line),
        Some((
            s("<CodeFragment\n  client:visible\n  set:html\n  language=\"plaintext\"\n  firstLine={2}\n  highlightLines={`{5,7}`}\n  title=\".env\"\n  code={`"),
            LineType::FencedCodeBlockOpen,
            0
        ))
    );

    let mdx_line = "```plaintext 2 {5,7} \".env\" <>";
    assert_eq!(
        form_fenced_code_block_first_line(mdx_line),
        Some((
            s("<CodeFragment\n  client:visible\n  set:html\n  language=\"plaintext\"\n  firstLine={2}\n  highlightLines={`{5,7}`}\n  title=\".env\"\n  collapse\n  code={`"),
            LineType::FencedCodeBlockOpen,
            0
        ))
    );
}

#[test]
pub fn tests_test_form_html_anchor_element_line() {
    // adds rel and target attributes for external sites when they are not already there
    let mdx_line = "<a href=\"https://www.example.com\">site</a>.";
    assert_eq!(
        form_html_anchor_element_line(mdx_line),
        Ok(Some((
            s("<a href=\"https://www.example.com\" target=\"_blank\" rel=\"nofollow noopener noreferrer\">site&nbsp;<LinkIcon /></a>"),
            s(".")
        )))
    );

    // does not add rel and target attributes to non external sites
    let mdx_line = "<a href=\"/home/contact-us\">site</a>.";
    assert_eq!(
        form_html_anchor_element_line(mdx_line),
        Ok(Some((s("<a href=\"/home/contact-us\">site</a>"), s("."))))
    );

    let mdx_line = "Go to <a href=\"www.example.com\">site</a> to learn more.";
    assert_eq!(
        form_html_anchor_element_line(mdx_line),
        Ok(Some((
            s("Go to <a href=\"www.example.com\">site</a>"),
            s(" to learn more.")
        )))
    );
}

#[test]
pub fn tests_test_form_code_span_line() {
    let mdx_line = "NewTech `console.log(\"made it here\")` first set up to solve the common problem coming up for identifiers in computer science.";
    assert_eq!(
        form_code_span_line(mdx_line),
        Some((
            s("NewTech <InlineCodeFragment code={`console.log(\"made it here\")`} />"),
            s(" first set up to solve the common problem coming up for identifiers in computer science.")
        ))
    );
}

#[test]
pub fn test_form_html_block_level_comment_first_line() {
    let mdx_line = "<!-- this should do so and so";
    assert_eq!(
        form_html_block_level_comment_first_line(mdx_line),
        Some((s("<!-- this should do so and so"), LineType::HTMLBlockLevelCommentOpen, 0))
    );
}

#[test]
pub fn test_form_html_block_level_comment_last_line() {
    let mdx_line = "this comment is not over yet";
    assert_eq!(
        form_html_block_level_comment_last_line(mdx_line),
        Ok((s("this comment is not over yet"), LineType::HTMLBlockLevelCommentOpen, 0))
    );

    let mdx_line = "just saying! -->  ";
    assert_eq!(
        form_html_block_level_comment_last_line(mdx_line),
        Ok((s("just saying! -->"), LineType::HTMLBlockLevelComment, 0))
    );

    let mdx_line = "just saying! -->  <p>The problem with";
    assert_eq!(
        form_html_block_level_comment_last_line(mdx_line),
        Ok((s("just saying! -->  <p>The problem with"), LineType::HTMLBlockLevelComment, 0))
    );
}

#[test]
pub fn test_form_inline_wrap_text() {
    // does not create paragraph tags for empty line
    let mdx_line = "";
    assert_eq!(form_inline_wrap_text(mdx_line), Ok((s(""), LineType::Paragraph, 0)));

    // adds paragraph tags for non-empty line
    let mdx_line = "NewTech was first set up to solve the common problem coming up for identifiers in computer science.";
    assert_eq!(
        form_inline_wrap_text(mdx_line),
        Ok((s("<p>NewTech was first set up to solve the common problem coming up for identifiers in computer science.</p>"), LineType::Paragraph, 0))
    );

    // add paragraph containing inline code fragment and emphasised text
    let mdx_line = "To me `E=mc^2` rather than `F=ma` is **the** most important equation.";
    assert_eq!(
        form_inline_wrap_text(mdx_line),
        Ok((s("<p>To me <InlineCodeFragment code={`E=mc^2`} /> rather than <InlineCodeFragment code={`F=ma`} /> is <strong>the</strong> most important equation.</p>"), LineType::Paragraph, 0))
    );
}

#[test]
pub fn tests_test_form_jsx_component_first_line() {
    let mdx_line = "<Component />";
    assert_eq!(
        form_jsx_component_first_line(mdx_line, "Component"),
        Some((s("<Component />"), s(""), HTMLTagType::SelfClosing, 0))
    );

    let mdx_line = "<ComponentPure />";
    assert_eq!(form_jsx_component_first_line(mdx_line, "Component"), None);

    let mdx_line = "<Component";
    assert_eq!(
        form_jsx_component_first_line(mdx_line, "Component"),
        Some((s("<Component"), s(""), HTMLTagType::OpeningStart, 0))
    );
}

#[test]
pub fn test_form_ordered_list_line() {
    let mdx_line = "1. first things first";
    assert_eq!(
        form_ordered_list_line(mdx_line),
        Ok(Some((s("  <li>first things first"), LineType::OrderedListItemOpen, 0)))
    );

    let mdx_line = "1. first things **before** second things";
    assert_eq!(
        form_ordered_list_line(mdx_line),
        Ok(Some((
            s("  <li>first things <strong>before</strong> second things"),
            LineType::OrderedListItemOpen,
            0
        )))
    );
}

#[test]
pub fn test_form_table_body_last_line() {
    let mdx_line = "| 1 January | Central London | Sunny |";
    assert_eq!(
        form_table_body_last_line(mdx_line),
        (
            s("    <tr>\n      <td>1 January</td>\n      <td>Central London</td>\n      <td>Sunny</td>\n    </tr>"),
            LineType::HTMLTableBodyOpen,
            0
        )
    );

    let mdx_line = "\n";
    assert_eq!(
        form_table_body_last_line(mdx_line),
        (s("  </tbody>\n</table>"), LineType::HTMLTableBody, 0)
    );
}

#[test]
pub fn test_form_table_body_row() {
    let mdx_line = "| 1 January | Central London | Sunny |";
    assert_eq!(
        form_table_body_row(mdx_line),
        Some((
            s("    <tr>\n      <td>1 January</td>\n      <td>Central London</td>\n      <td>Sunny</td>\n    </tr>"),
            LineType::HTMLTableBodyOpen,
            0
        ))
    );
}

#[test]
pub fn test_form_table_head_first_line() {
    let mdx_line = "| 1 January | Central London | Sunny |";
    assert_eq!(
        form_table_head_first_line(mdx_line),
        Some((
            s("<table>\n  <thead>\n    <tr>\n      <th scope=\"col\">1 January </th>\n      <th scope=\"col\">Central London </th>\n      <th scope=\"col\">Sunny </th>\n    </tr>"),
            LineType::HTMLTableHeadOpen,
            0
        ))
    );
}

#[test]
pub fn test_form_table_head_last_line() {
    let mdx_line = "| :--- | :---: | ---: |";
    assert_eq!(
        form_table_head_last_line(mdx_line),
        Some((s("  </thead>\n  <tbody>"), LineType::HTMLTableBodyOpen, 0))
    );

    let mdx_line = "| 1 January | Central London | Sunny |";
    assert_eq!(
        form_table_head_last_line(mdx_line),
        Some((
            s("    <tr>\n      <th scope=\"col\">1 January </th>\n      <th scope=\"col\">Central London </th>\n      <th scope=\"col\">Sunny </th>\n    </tr>"),
            LineType::HTMLTableHeadOpen,
            0
        ))
    );
}

#[test]
pub fn test_form_table_head_row() {
    let mdx_line = "| 1 January | Central London | Sunny |";
    assert_eq!(
        form_table_head_row(mdx_line),
        Some((
            s("    <tr>\n      <th scope=\"col\">1 January </th>\n      <th scope=\"col\">Central London </th>\n      <th scope=\"col\">Sunny </th>\n    </tr>"),
            LineType::HTMLTableHeadOpen,
            0
        ))
    );
}

#[test]
pub fn test_form_table_header_row() {
    let mdx_line = "| :--- | :---: | ---: |";
    assert_eq!(
        form_table_header_row(mdx_line),
        Some((s("  </thead>\n  <tbody>"), LineType::HTMLTableBodyOpen, 0))
    );
}

#[test]
pub fn test_format_heading_widows() {
    let title = "Introducing the new cat";
    assert_eq!(format_heading_widows(title), "Introducing the new\\u00a0cat");

    let title = "Introducing the zoo's new elephant";
    assert_eq!(format_heading_widows(title), "Introducing the zoo\\u2019s new elephant");

    let title = "\"Introducing\" the zoo's new elephant";
    assert_eq!(
        format_heading_widows(title),
        "\\u201cIntroducing\\u201d the zoo\\u2019s new elephant"
    );
}

#[test]
pub fn test_parse_fenced_code_block_first_line() {
    let mdx_line = "```plaintext {5,7} \".env\" [A code block all about maths]";
    assert_eq!(
        parse_fenced_code_block_first_line(mdx_line),
        Some((
            Some(s("plaintext")),
            None,
            Some(s("{5,7}")),
            Some(s(".env")),
            Some(s("A code block all about maths")),
            false
        ))
    );

    let mdx_line = "```plaintext";
    assert_eq!(
        parse_fenced_code_block_first_line(mdx_line),
        Some((Some(s("plaintext")), None, None, None, None, false))
    );

    let mdx_line = "```plaintext {5,7}";
    assert_eq!(
        parse_fenced_code_block_first_line(mdx_line),
        Some((Some(s("plaintext")), None, Some(s("{5,7}")), None, None, false))
    );

    let mdx_line = "```plaintext 2 {5,7}";
    assert_eq!(
        parse_fenced_code_block_first_line(mdx_line),
        Some((Some(s("plaintext")), Some(s("2")), Some(s("{5,7}")), None, None, false))
    );

    let mdx_line = "```plaintext 2 {5,7} <>";
    assert_eq!(
        parse_fenced_code_block_first_line(mdx_line),
        Some((Some(s("plaintext")), Some(s("2")), Some(s("{5,7}")), None, None, true))
    );
}

#[test]
pub fn tests_test_parse_href_scheme() {
    let href = "https://example.com/home";
    assert_eq!(parse_href_scheme(href), Some((s("https://"), s("example.com/home"))));

    let href = "/home";
    assert_eq!(parse_href_scheme(href), None);
}

#[test]
pub fn test_parse_html_block_level_comment_last_line() {
    let mdx_line = "just saying! -->  <p>The problem with";
    assert_eq!(
        parse_html_block_level_comment_last_line(mdx_line),
        Some((s("just saying! "), s("  <p>The problem with")))
    );
}

#[test]
pub fn tests_test_parse_html_tag_attribute() {
    let attribute = "href=\"https://example.com\"";
    assert_eq!(
        parse_html_tag_attribute(attribute),
        Some(((s("href"), s("https://example.com")), s("")))
    );

    let attribute = "aria-label=\"Open our website homepage\"";
    assert_eq!(
        parse_html_tag_attribute(attribute),
        Some(((s("aria-label"), s("Open our website homepage")), s("")))
    );
}

#[test]
pub fn tests_test_parse_html_tag_attributes() {
    let attributes = "href=\"https://example.com\" target=\"_blank\"";
    let result = parse_html_tag_attributes(attributes);
    assert_eq!(result.len(), 2);
    assert_eq!(result[0], (s("href"), s("https://example.com")));
    assert_eq!(result[1], (s("target"), s("_blank")));
}

#[test]
pub fn test_parse_html_tag_content() {
    let tag_content = "main class=\"container\" />";
    assert_eq!(
        parse_html_tag_content(tag_content),
        Some(((s("main"), s("class=\"container\" ")), s("/>")))
    );
}

#[test]
pub fn tests_test_parse_mdx_line() {
    let mdx_line = "# Getting Started with NewTech  ";
    assert_eq!(
        parse_mdx_line(mdx_line, None, None, None),
        Ok(Some((
            s("<h1 id=\"getting-started-with-newtech\"><Heading id=\"getting-started-with-newtech\" text=\"Getting Started with NewTech\"/></h1>"),
            LineType::Heading,
            1
        )))
    );

    let mdx_line = "### 😕 What Does All This Mean?";
    assert_eq!(
        parse_mdx_line(mdx_line, None, None, None),
        Ok(Some((
            s("<h3 id=\"confused-what-does-all-this-mean\"><Heading id=\"confused-what-does-all-this-mean\" text=\"😕 What Does All This Mean?\"/></h3>"),
            LineType::Heading,
            3
        )))
    );

    let mdx_line = "NewTech was first set up to solve the common problem coming up for identifiers in computer science.";
    assert_eq!(
        parse_mdx_line(mdx_line, None, None, None),
        Ok(Some((
            s("<p>NewTech was first set up to solve the common problem coming up for identifiers in computer science.</p>"),
            LineType::Paragraph,
            0
        )))
    );
}

#[test]
pub fn tests_test_parse_heading_text() {
    let heading_mdx = "# Getting Started with NewTech  ";
    assert_eq!(
        parse_heading_text(heading_mdx),
        Some((s("Getting Started with NewTech  "), 1))
    );

    let heading_mdx = "### What Does All This Mean?";
    assert_eq!(parse_heading_text(heading_mdx), Some((s("What Does All This Mean?"), 3)));
}

#[test]
pub fn tests_test_parse_inline_wrap_segment() {
    let mdx_line =
        "first** set up to solve the common problem coming up for identifiers in computer science.";
    assert_eq!(
        parse_inline_wrap_segment(mdx_line, "**"),
        Some((
            s("first"),
            s(" set up to solve the common problem coming up for identifiers in computer science.")
        ))
    );
}

#[test]
pub fn tests_test_parse_up_to_inline_wrap_segment() {
    let mdx_line = "NewTech was **first** set up to solve the common problem coming up for identifiers in computer science.";
    assert_eq!(
        parse_up_to_inline_wrap_segment(mdx_line, "**"),
        Some((
            s("NewTech was "),
            s("first** set up to solve the common problem coming up for identifiers in computer science.")
        ))
    );
}

#[test]
pub fn tests_test_parse_inline_wrap_text() {
    let mdx_line = "NewTech was **first** set up to solve the **common problem** coming up for identifiers in computer science.";
    assert_eq!(
        parse_inline_wrap_text(mdx_line),
        Ok(s("NewTech was <strong>first</strong> set up to solve the <strong>common problem</strong> coming up for identifiers in computer science."))
    );

    let mdx_line = "NewTech was first set up to solve the common problem coming up for identifiers in computer science.";
    assert_eq!(
        parse_inline_wrap_text(mdx_line),
        Ok(s("NewTech was first set up to solve the common problem coming up for identifiers in computer science."))
    );

    let mdx_line = "NewTech was first set up to *solve* the common problem coming up for identifiers in *computer* science.";
    assert_eq!(
        parse_inline_wrap_text(mdx_line),
        Ok(s("NewTech was first set up to <em>solve</em> the common problem coming up for identifiers in <em>computer</em> science."))
    );

    let mdx_line = "To me `E=mc^2` rather than `F=ma` is **the** most important equation.";
    assert_eq!(
        parse_inline_wrap_text(mdx_line),
        Ok(s("To me <InlineCodeFragment code={`E=mc^2`} /> rather than <InlineCodeFragment code={`F=ma`} /> is <strong>the</strong> most important equation."))
    );

    let mdx_line =
        "On <a href=\"www.example.com\">our site</a>, you can see how `console.log()` works.";
    assert_eq!(
        parse_inline_wrap_text(mdx_line),
        Ok(s("On <a href=\"www.example.com\">our site</a>, you can see how <InlineCodeFragment code={`console.log()`} /> works."))
    );

    let mdx_line =
        "See our <a href=\"www.example.com\">latest `console.log()` example</a> if you like.";
    assert_eq!(
        parse_inline_wrap_text(mdx_line),
        Ok(s("See our <a href=\"www.example.com\">latest <InlineCodeFragment code={`console.log()`} /> example</a> if you like."))
    );
}

#[test]
pub fn test_parse_opening_html_tag_with_attributes() {
    let mdx_line = "<a href=\"https://www.example.com\">site</a>.";
    assert_eq!(
        parse_opening_html_tag_with_attributes(mdx_line, "a"),
        Some((s("href=\"https://www.example.com\""), s("site</a>.")))
    );
}

#[test]
pub fn test_parse_opening_html_tag_no_attributes() {
    let mdx_line = "<a>site</a>.";
    assert_eq!(
        parse_opening_html_tag_no_attributes(mdx_line, "a"),
        Some((s(""), s("site</a>.")))
    );
}

#[test]
pub fn test_parse_ordered_list_text() {
    let list_line_mdx = "1. first of all  ";
    assert_eq!(parse_ordered_list_text(list_line_mdx), Some((s("first of all"), 0, s("1"))));

    let list_line_mdx = "  3. third of all  ";
    assert_eq!(parse_ordered_list_text(list_line_mdx), Some((s("third of all"), 2, s("3"))));
}

#[test]
pub fn test_parse_closing_html_tag() {
    let tag = "</main> ";
    assert_eq!(
        parse_closing_html_tag(tag),
        Some((s("main"), s(""), HTMLTagType::Closing, s(" ")))
    );
}

#[test]
pub fn test_parse_self_closing_html_tag() {
    let tag = "<main class=\"container\" /> ";
    assert_eq!(
        parse_self_closing_html_tag(tag),
        Some((s("main"), s("class=\"container\" "), HTMLTagType::SelfClosing, s(" ")))
    );
}

#[test]
pub fn tests_test_parse_opening_html_tag() {
    let tag = "<main class=\"container\" > ";
    assert_eq!(
        parse_opening_html_tag(tag),
        Some((s("main"), s("class=\"container\" "), HTMLTagType::Opening, s(" ")))
    );
}

#[test]
pub fn test_parse_opening_html_tag_end() {
    let tag = " class=\"container\" >";
    assert_eq!(
        parse_opening_html_tag_end(tag),
        (s("class=\"container\" "), HTMLTagType::Opening, s(""))
    );

    let tag = "> ";
    assert_eq!(parse_opening_html_tag_end(tag), (s(""), HTMLTagType::Opening, s(" ")));
}

#[test]
pub fn test_parse_opening_html_tag_start() {
    let tag = "<main class=\"container\" ";
    assert_eq!(
        parse_opening_html_tag_start(tag),
        Some((s("main"), s("class=\"container\" "), HTMLTagType::OpeningStart, s("")))
    );

    let tag = "<main";
    assert_eq!(
        parse_opening_html_tag_start(tag),
        Some((s("main"), s(""), HTMLTagType::OpeningStart, s("")))
    );
}

#[test]
pub fn test_parse_self_closing_html_tag_end() {
    let tag = " class=\"container\" />";
    assert_eq!(
        parse_self_closing_html_tag_end(tag),
        Some((s("class=\"container\" "), HTMLTagType::SelfClosing, s("")))
    );
}

#[test]
pub fn test_parse_table_cell() {
    let mdx_line = "1 January | Central London |";
    assert_eq!(parse_table_cell(mdx_line), Some((s("1 January "), s("Central London |"))));
}

#[test]
pub fn test_parse_table_column_alignment() {
    let mdx_line = ":--- | ---: |";
    assert_eq!(
        parse_table_column_alignment(mdx_line),
        Some((TableAlign::Left, s("---: |")))
    );

    let mdx_line = ":---: | ---: |";
    assert_eq!(
        parse_table_column_alignment(mdx_line),
        Some((TableAlign::Centre, s("---: |")))
    );

    let mdx_line = "---: | ---: |";
    assert_eq!(
        parse_table_column_alignment(mdx_line),
        Some((TableAlign::Right, s("---: |")))
    );
}

#[test]
pub fn test_parse_table_header_row() {
    let mdx_line = "| :--- | :---: | ---: |";
    let (result, remaining_line) = parse_table_header_row(mdx_line).unwrap();
    assert_eq!(remaining_line, "");
    assert_eq!(result.len(), 3);
    assert_eq!(result[0], TableAlign::Left);
    assert_eq!(result[1], TableAlign::Centre);
    assert_eq!(result[2], TableAlign::Right);
}

#[test]
pub fn test_parse_table_line() {
    let mdx_line = "| 1 January | Central London | Sunny |";
    let (result, remaining_line) = parse_table_line(mdx_line).unwrap();
    assert_eq!(remaining_line, "");
    assert_eq!(result.len(), 3);
    assert_eq!(result[0], "1 January ");
    assert_eq!(result[1], "Central London ");
    assert_eq!(result[2], "Sunny ");
}

#[test]
pub fn test_parse_unordered_list_text() {
    let list_line_mdx = "- first of all  ";
    assert_eq!(parse_unordered_list_text(list_line_mdx), Some((s("first of all  "), 0)));

    let list_line_mdx = "  - first of all  ";
    assert_eq!(parse_unordered_list_text(list_line_mdx), Some((s("first of all  "), 2)));
}

#[test]
pub fn tests_test_parse_up_to_opening_html_tag() {
    let mdx_line = "Visit our new <a href=\"https://www.example.com\">site</a>.";
    assert_eq!(
        parse_up_to_opening_html_tag(mdx_line, "a"),
        Some((s("Visit our new "), s("<a href=\"https://www.example.com\">site</a>.")))
    );
}

#[test]
pub fn test_remove_html_tags() {
    let mdx_line = "Hello <img src=\"image.avif\" />it's me";
    assert_eq!(remove_html_tags(mdx_line), Some((s("Hello "), s("it's me"))));
}

#[test]
pub fn tests_test_segment_strong_emphasis_line() {
    let mdx_line = "NewTech was **first** set up to solve the **common problem** coming up for identifiers in computer science.";
    assert_eq!(
        segment_strong_emphasis_line(mdx_line),
        Some((
            s("NewTech was "),
            s("first"),
            s(" set up to solve the **common problem** coming up for identifiers in computer science.")
        ))
    );
}

#[test]
pub fn tests_test_segment_emphasis_line() {
    let mdx_line = "NewTech was first set up to *solve* the common problem coming up for identifiers in *computer* science.";
    assert_eq!(
        segment_emphasis_line(mdx_line),
        Some((
            s("NewTech was first set up to "),
            s("solve"),
            s(" the common problem coming up for identifiers in *computer* science.")
        ))
    );
}

#[test]
pub fn test_slugify_title() {
    let title = "🏄🏽 All about Surf";
    assert_eq!(slugify_title(title), s("surfer-skin-tone-4-all-about-surf"));

    let title = "🏄🏽 All <img src=\"my-picture.jpg\" />about Surf";
    assert_eq!(slugify_title(title), s("surfer-skin-tone-4-all-about-surf"));
}

#[test]
pub fn test_form_code_span_html_string() {
    let line = "use `grep` to search";
    assert_eq!(form_code_span_html_string(line), s("use <code>grep</code> to search"));
}

#[test]
pub fn test_form_html_block_element_first_line_rejects_unknown() {
    assert_eq!(
        form_html_block_element_first_line("<span>x</span>"),
        Err(MdError::UnrecognizedBlockElement)
    );
    assert_eq!(
        form_html_block_element_first_line("<div class=\"wrapper\">"),
        Ok(Some((s("<div class=\"wrapper\">"), LineType::HTMLDivBlockOpen, 0)))
    );
}

#[test]
pub fn test_form_unordered_list_line() {
    assert_eq!(
        form_unordered_list_line("- a point"),
        Ok(Some((s("<li>\n  a point\n</li>"), LineType::UnorderedListItem, 0)))
    );
}

#[test]
pub fn tests_test_discard_leading_whitespace() {
    let mdx_line = "   NewTech was first set up to solve the common problem coming up for identifiers in computer science.  ";
    assert_eq!(
        discard_leading_whitespace(mdx_line),
        s("NewTech was first set up to solve the common problem coming up for identifiers in computer science.  ")
    );
}
