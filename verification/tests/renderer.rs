use mdx_astro::html::{
    discard_leading_whitespace, form_code_span_line, form_html_anchor_element_line,
    parse_inline_wrap_text, parse_mdx_line, parse_opening_html_tag,
};
use mdx_astro::parser::heading::parse_heading_text;
use mdx_astro::parser::inline::{
    parse_href_scheme, parse_html_tag_attribute, parse_html_tag_attributes,
    parse_inline_wrap_segment, parse_up_to_inline_wrap_segment, segment_emphasis_line,
    segment_strong_emphasis_line,
};
use mdx_astro::parser::tags::parse_up_to_opening_html_tag;

fn s(v: &str) -> String {
    String::from(v)
}

#[test]
pub fn parser_test_discard_leading_whitespace() {
    let mdx_line = "   NewTech was first set up to solve the common problem coming up for identifiers in computer science.  ";
    assert_eq!(
        discard_leading_whitespace(mdx_line),
        s("NewTech was first set up to solve the common problem coming up for identifiers in computer science.  ")
    );
}

#[test]
pub fn parser_test_form_html_anchor_element_line() {
    // adds rel and target attributes for external sites when they are not already there
    let mdx_line = "<a href=\"https://www.example.com\">site</a>.";
    assert_eq!(
        form_html_anchor_element_line(mdx_line),
        Ok(Some((
            s("<a href=\"https://www.example.com\" target=\"_blank\" rel=\"nofollow noopener noreferrer\">"),
            s("site</a>.")
        )))
    );

    // does not add rel and target attributes to non external sites
    let mdx_line = "<a href=\"/home/contact-us\">site</a>.";
    assert_eq!(
        form_html_anchor_element_line(mdx_line),
        Ok(Some((s("<a href=\"/home/contact-us\">"), s("site</a>."))))
    );
}

#[test]
pub fn parser_test_form_code_span_line() {
    let mdx_line = "NewTech `console.log(\"made it here\")` first set up to solve the common problem coming up for identifiers in computer science.";
    assert_eq!(
        form_code_span_line(mdx_line),
        Some((
            s("NewTech <code>console.log(\"made it here\")</code>"),
            s(" first set up to solve the common problem coming up for identifiers in computer science.")
        ))
    );
}

#[test]
pub fn parser_test_parse_href_scheme() {
    let href = "https://example.com/home";
    assert_eq!(parse_href_scheme(href), Some((s("https://"), s("example.com/home"))));

    let href = "/home";
    assert_eq!(parse_href_scheme(href), None);
}

#[test]
pub fn parser_test_parse_html_tag_attribute() {
    let attribute = "href=\"https://example.com\"";
    assert_eq!(
        parse_html_tag_attribute(attribute),
        Some(((s("href"), s("https://example.com")), s("")))
    );

    let attribute = "aria-label=\"Open our website homepage\"";
    assert_eq!(
        parse_html_tag_attribute(attribute),
        Some(((s("aria-label"), s("Open our website homepage")), s("")))
    );
}

#[test]
pub fn parser_test_parse_html_tag_attributes() {
    let attributes = "href=\"https://example.com\" target=\"_blank\"";
    let result = parse_html_tag_attributes(attributes);
    assert_eq!(result.len(), 2);
    assert_eq!(result[0], (s("href"), s("https://example.com")));
    assert_eq!(result[1], (s("target"), s("_blank")));
}

#[test]
pub fn parser_test_parse_mdx_line() {
    let mdx_line = "# Getting Started with NewTech  ";
    assert_eq!(
        parse_mdx_line(mdx_line),
        Ok(Some(s("<h1>Getting Started with NewTech  </h1>")))
    );

    let mdx_line = "### What Does All This Mean?";
    assert_eq!(parse_mdx_line(mdx_line), Ok(Some(s("<h3>What Does All This Mean?</h3>"))));

    let mdx_line = "NewTech was first set up to solve the common problem coming up for identifiers in computer science.";
    assert_eq!(
        parse_mdx_line(mdx_line),
        Ok(Some(s("<p>NewTech was first set up to solve the common problem coming up for identifiers in computer science.</p>")))
    );
}

#[test]
pub fn parser_test_parse_heading_text() {
    let heading_mdx = "# Getting Started with NewTech  ";
    assert_eq!(
        parse_heading_text(heading_mdx),
        Some((s("Getting Started with NewTech  "), 1))
    );

    let heading_mdx = "### What Does All This Mean?";
    assert_eq!(parse_heading_text(heading_mdx), Some((s("What Does All This Mean?"), 3)));
}

#[test]
pub fn parser_test_parse_inline_wrap_segment() {
    let mdx_line = "first** set up to solve the common problem coming up for identifiers in computer science.";
    assert_eq!(
        parse_inline_wrap_segment(mdx_line, "**"),
        Some((
            s("first"),
            s(" set up to solve the common problem coming up for identifiers in computer science.")
        ))
    );
}

#[test]
pub fn parser_test_parse_up_to_inline_wrap_segment() {
    let mdx_line = "NewTech was **first** set up to solve the common problem coming up for identifiers in computer science.";
    assert_eq!(
        parse_up_to_inline_wrap_segment(mdx_line, "**"),
        Some((
            s("NewTech was "),
            s("first** set up to solve the common problem coming up for identifiers in computer science.")
        ))
    );
}

#[test]
pub fn parser_test_parse_inline_wrap_text() {
    let mdx_line = "NewTech was **first** set up to solve the **common problem** coming up for identifiers in computer science.";
    assert_eq!(
        parse_inline_wrap_text(mdx_line),
        Ok(s("NewTech was <strong>first</strong> set up to solve the <strong>common problem</strong> coming up for identifiers in computer science."))
    );

    let mdx_line = "NewTech was first set up to solve the common problem coming up for identifiers in computer science.";
    assert_eq!(
        parse_inline_wrap_text(mdx_line),
        Ok(s("NewTech was first set up to solve the common problem coming up for identifiers in computer science."))
    );

    let mdx_line = "NewTech was first set up to *solve* the common problem coming up for identifiers in *computer* science.";
    assert_eq!(
        parse_inline_wrap_text(mdx_line),
        Ok(s("NewTech was first set up to <em>solve</em> the common problem coming up for identifiers in <em>computer</em> science."))
    );
}

#[test]
pub fn parser_test_parse_opening_html_tag() {
    let mdx_line = "<a href=\"https://www.example.com\">site</a>.";
    assert_eq!(
        parse_opening_html_tag(mdx_line, "a"),
        Some((s("href=\"https://www.example.com\""), s("site</a>.")))
    );
}

#[test]
pub fn parser_test_parse_up_to_opening_html_tag() {
    let mdx_line = "Visit our new <a href=\"https://www.example.com\">site</a>.";
    assert_eq!(
        parse_up_to_opening_html_tag(mdx_line, "a"),
        Some((s("Visit our new "), s("<a href=\"https://www.example.com\">site</a>.")))
    );
}

#[test]
pub fn parser_test_segment_strong_emphasis_line() {
    let mdx_line = "NewTech was **first** set up to solve the **common problem** coming up for identifiers in computer science.";
    assert_eq!(
        segment_strong_emphasis_line(mdx_line),
        Some((
            s("NewTech was "),
            s("first"),
            s(" set up to solve the **common problem** coming up for identifiers in computer science.")
        ))
    );
}

#[test]
pub fn parser_test_segment_emphasis_line() {
    let mdx_line = "NewTech was first set up to *solve* the common problem coming up for identifiers in *computer* science.";
    assert_eq!(
        segment_emphasis_line(mdx_line),
        Some((
            s("NewTech was first set up to "),
            s("solve"),
            s(" the common problem coming up for identifiers in *computer* science.")
        ))
    );
}
