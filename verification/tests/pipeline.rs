use mdx_astro::parser::frontmatter::{form_astro_frontmatter, ComponentKinds};
use mdx_astro::parser::jsx::{
    form_jsx_component_opening_line, parse_jsx_component, parse_jsx_component_first_line,
    HowToComponent, JSXComponentRegister, JSXComponentType, JSXTagType,
};
use mdx_astro::parser::inline::{form_inline_wrap_text, parse_inline_wrap_text};
use mdx_astro::parser::{parse_frontmatter, process, HTMLTagType, LineType, MdError};
use mdx_astro::paths::{
    output_path_from_relative_input, slug_from_input_file_path,
    watch_directory_from_relative_input_path,
};
use mdx_astro::parser::heading::{format_heading, slugify_title};
use mdx_astro::text::parse_u64;

fn s(v: &str) -> String {
    String::from(v)
}

fn lines(v: &[&str]) -> Vec<String> {
    v.iter().map(|l| String::from(*l)).collect()
}

#[test]
pub fn test_parse_jsx_component() {
    let mdx_line = "<Questions {questions} />";
    assert_eq!(
        parse_jsx_component(mdx_line, "Questions"),
        Some((s(" {questions} "), s("")))
    );
}

#[test]
pub fn test_parse_jsx_component_first_line() {
    let mdx_line = "<CodeFragment";
    assert_eq!(
        parse_jsx_component_first_line(mdx_line, "CodeFragment"),
        Some((s("<CodeFragment"), JSXTagType::Opened))
    );

    let mdx_line = "<CodeFragment count={3} >";
    assert_eq!(
        parse_jsx_component_first_line(mdx_line, "CodeFragment"),
        Some((s("<CodeFragment count={3} >"), JSXTagType::Closed))
    );

    let mdx_line = "<CodeFragment count={3} />";
    assert_eq!(
        parse_jsx_component_first_line(mdx_line, "CodeFragment"),
        Some((s("<CodeFragment count={3} />"), JSXTagType::SelfClosed))
    );
}

#[test]
pub fn test_form_jsx_component_opening_line() {
    let mdx_line = "name=\"some name\"";
    assert_eq!(
        form_jsx_component_opening_line(mdx_line),
        (s("name=\"some name\""), s("name=\"some name\""), HTMLTagType::OpeningStart, 0)
    );
}

#[test]
pub fn test_output_path_from_relative_input() {
    let input_path = "local/files/input/./day-one/morning.txt";
    let relative_output_path = "local/files/output";
    assert_eq!(
        output_path_from_relative_input(relative_output_path, input_path),
        Some(s("local/files/output/day-one/morning.astro"))
    );
}

#[test]
pub fn test_output_path_without_marker() {
    let input_path = "local/files/input/day-one/morning.mdx";
    assert_eq!(output_path_from_relative_input("local/files/output", input_path), None);
}

#[test]
pub fn test_watch_directory_from_relative_input_path() {
    assert_eq!(
        watch_directory_from_relative_input_path("local/files/input/./day-one/morning.txt"),
        Some(s("local/files/input"))
    );
    assert_eq!(watch_directory_from_relative_input_path("local/plain.txt"), None);
}

#[test]
pub fn test_slug_from_input_file_path() {
    assert_eq!(slug_from_input_file_path("content/blog/surf/index.mdx"), Some(s("surf")));
    assert_eq!(slug_from_input_file_path("content/blog/waves.mdx"), Some(s("waves")));
}

#[test]
pub fn test_format_plain_text_unchanged() {
    assert_eq!(parse_inline_wrap_text("plain text"), Ok(s("plain text")));
}

#[test]
pub fn test_format_strong_emphasis() {
    assert_eq!(parse_inline_wrap_text("a **b** c"), Ok(s("a <strong>b</strong> c")));
}

#[test]
pub fn test_format_external_anchor() {
    assert_eq!(
        form_inline_wrap_text("visit <a href=\"https://example.com\">there</a>"),
        Ok((
            s("<p>visit <a href=\"https://example.com\" target=\"_blank\" rel=\"nofollow noopener noreferrer\">there&nbsp;<LinkIcon /></a></p>"),
            LineType::Paragraph,
            0
        ))
    );
}

#[test]
pub fn test_format_local_anchor() {
    assert_eq!(
        form_inline_wrap_text("visit <a href=\"/local\">there</a>"),
        Ok((s("<p>visit <a href=\"/local\">there</a></p>"), LineType::Paragraph, 0))
    );
}

#[test]
pub fn test_list_type_switch_closes_list() {
    let doc = lines(&["1. a", "2. b", "- c"]);
    let (_preamble, body) = process(&doc, "post").unwrap();
    assert_eq!(
        body,
        vec![
            s("<ol>\n  <li>a"),
            s("  </li>  <li>b"),
            s("</ol>"),
            s("<ul>\n  <li>\n  c\n</li>"),
            s("</ul>"),
        ]
    );
    let joined = body.join("\n");
    assert_eq!(joined.matches("<ol>").count(), 1);
    assert_eq!(joined.matches("</ol>").count(), 1);
    assert_eq!(joined.matches("<ul>").count(), 1);
    assert_eq!(joined.matches("</ul>").count(), 1);
}

#[test]
pub fn test_guide_document_positions() {
    let doc = lines(&[
        "<HowTo name=\"g\">",
        "<HowToSection name=\"s1\">",
        "</HowToSection>",
        "<HowToSection name=\"s2\">",
        "<HowToStep name=\"t1\">",
        "</HowToStep>",
        "</HowToSection>",
        "</HowTo>",
    ]);
    let (preamble, body) = process(&doc, "guide-post").unwrap();
    assert!(preamble.iter().any(|l| l == "const howTo = {"));
    // only the outer tag's attributes become guide-level properties
    assert!(preamble.iter().any(|l| l == "  name: \"g\","));
    assert!(!preamble.iter().any(|l| l == "  name: \"s2\","));
    assert!(preamble.iter().any(|l| l == "      name: \"s2\","));
    assert!(preamble.iter().any(|l| l == "      position: 2,"));
    assert!(preamble.iter().any(|l| l == "          name: \"t1\","));
    assert!(preamble.iter().any(|l| l == "          position: 1,"));
    assert!(body.iter().any(|l| l == "  <HowToSection name=\"s2\" position={2}>"));
    assert!(body
        .iter()
        .any(|l| l == "    <HowToStep {slug} position={1} section={2} name=\"t1\">"));
}

#[test]
pub fn test_anchor_missing_href_aborts() {
    let doc = lines(&["some text", "visit <a name=\"x\">there</a> now"]);
    assert_eq!(process(&doc, "post"), Err(MdError::MissingRequiredAttribute));
}

#[test]
pub fn test_unrecognized_block_element_aborts() {
    let doc = lines(&["<span>x</span>"]);
    assert_eq!(process(&doc, "post"), Err(MdError::UnrecognizedBlockElement));
}

#[test]
pub fn test_malformed_step_timestamp_aborts() {
    let doc = lines(&[
        "<HowTo name=\"g\">",
        "<HowToSection name=\"s\">",
        "<HowToStep name=\"t\" start=\"xx\">",
    ]);
    assert_eq!(process(&doc, "post"), Err(MdError::MalformedComponentGrammar));
}

#[test]
pub fn test_frontmatter_skip() {
    assert_eq!(parse_frontmatter(&lines(&["hello", "---"])), 0);
    assert_eq!(parse_frontmatter(&lines(&["---", "title: x", "---", "body"])), 3);
    assert_eq!(parse_frontmatter(&lines(&["---", "title: x"])), 3);
}

#[test]
pub fn test_process_emits_delimited_preamble() {
    let doc = lines(&["# A title", "", "some text"]);
    let (preamble, body) = process(&doc, "post").unwrap();
    assert_eq!(preamble[0], "---");
    assert_eq!(preamble[preamble.len() - 1], "---\n");
    assert!(preamble.iter().any(|l| l.contains("InlineCodeFragment")));
    assert_eq!(body.len(), 2);
    assert_eq!(body[1], "<p>some text</p>");
}

#[test]
pub fn test_frontmatter_determinism() {
    let kinds = ComponentKinds {
        code_fragment: true,
        how_to: false,
        gatsby_not_maintained: false,
        image: false,
        poll: true,
        questions: false,
        tweet: false,
        video: false,
    };
    let prepared: Vec<String> = Vec::new();
    let a = form_astro_frontmatter(&kinds, &prepared, "post");
    let b = form_astro_frontmatter(&kinds, &prepared, "post");
    assert_eq!(a, b);
    assert!(a.iter().any(|l| l == "const slug = 'post';"));
    assert!(a.iter().any(|l| l == "import Poll from '~components/Poll.svelte';"));
}

#[test]
pub fn test_guide_model_serialization_shape() {
    let mut h = HowToComponent::new();
    h.insert_prop("name", "guide");
    h.insert_prop("name", "guide2");
    let p1 = h.add_section("one");
    let p2 = h.add_section("two");
    assert_eq!((p1, p2), (1, 2));
    let m = h.astro_frontmatter_markup();
    assert_eq!(m[0], "const howTo = {");
    assert_eq!(m[1], "  name: \"guide2\",");
    assert_eq!(m[m.len() - 1], "};");
}

#[test]
pub fn test_register_tracks_open_components() {
    let mut r = JSXComponentRegister::new();
    r.push(JSXComponentType::Poll);
    assert_eq!(r.peek(), Some(&JSXComponentType::Poll));
    assert_eq!(r.pop(), Some(JSXComponentType::Poll));
    assert_eq!(r.peek(), None);
}

#[test]
pub fn test_parse_u64_reads_decimal_digits() {
    assert_eq!(parse_u64("0"), Some(0));
    assert_eq!(parse_u64("1845"), Some(1845));
    assert_eq!(parse_u64("18446744073709551615"), Some(u64::MAX));
    assert_eq!(parse_u64("18446744073709551616"), None);
    assert_eq!(parse_u64(""), None);
    assert_eq!(parse_u64("12a"), None);
}

#[test]
pub fn test_slugify_transliterates() {
    assert_eq!(slugify_title("Æneid"), s("aeneid"));
    assert_eq!(slugify_title("What's New?"), s("whats-new"));
}

#[test]
pub fn test_number_range_between_code_fragments() {
    assert_eq!(
        form_inline_wrap_text("lines `3`-`5` matter"),
        Ok((
            s("<p>lines <InlineCodeFragment code={`3`} />&thinsp;&ndash;&thinsp;<InlineCodeFragment code={`5`} /> matter</p>"),
            LineType::Paragraph,
            0
        ))
    );
}

#[test]
pub fn test_format_heading_typography() {
    assert_eq!(format_heading("well-known tricks"), s("well&#x2011;known tricks"));
    assert_eq!(format_heading("plain words"), s("plain words"));
}

#[test]
pub fn test_fenced_code_block_document() {
    let doc = lines(&["```js", "let x = 1 < 2;", "```"]);
    let (preamble, body) = process(&doc, "post").unwrap();
    assert_eq!(
        body,
        vec![
            s("<CodeFragment\n  client:visible\n  set:html\n  language=\"js\"\n  code={`"),
            s("let x = 1 \\u003C 2;"),
            s("  `} />"),
        ]
    );
    assert!(preamble
        .iter()
        .any(|l| l == "import CodeFragment from '~components/CodeFragment.svelte';"));
}

#[test]
pub fn test_multi_line_poll_document() {
    let doc = lines(&["<Poll", "question=\"q\"", "/>"]);
    let (preamble, body) = process(&doc, "post").unwrap();
    assert_eq!(body, vec![s("<Poll"), s("question=\"q\""), s("/>")]);
    assert!(preamble.iter().any(|l| l == "import Poll from '~components/Poll.svelte';"));
    assert!(preamble.iter().any(|l| l == "const slug = 'post';"));
}

#[test]
pub fn test_mismatched_close_aborts() {
    let doc = lines(&["<div>", "</dl>"]);
    assert_eq!(process(&doc, "post"), Err(MdError::ComponentNameMismatch));
}

#[test]
pub fn test_section_without_guide_properties_aborts() {
    // the outer tag carried no attributes, so no guide model exists when
    // the named section arrives
    let doc = lines(&["<HowTo>", "<HowToSection name=\"s\">"]);
    assert_eq!(process(&doc, "post"), Err(MdError::MalformedComponentGrammar));
}
