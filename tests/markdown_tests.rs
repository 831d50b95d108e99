use doctave_markdown::callout::{parse_callout, Callout, CalloutKind};
use doctave_markdown::codeblock::{apply_highlight, CodeBlock};
use doctave_markdown::config::{BuildMode, NavRule};
use doctave_markdown::emoji::EmojiConverter;
use doctave_markdown::event::{Alignment, CodeBlockKind, Event, LinkType, Tag};
use doctave_markdown::link_rewriter::{append_parameters, classify_url, is_in_local_domain};
use doctave_markdown::output::{Heading, Link, Output, UrlType};
use doctave_markdown::parser::{MarkdownParser, ParseOptions, ParsedMarkdown};
use doctave_markdown::sanitize::sanitize;
use doctave_markdown::text::split_whitespace;
use pulldown_cmark as md;

fn link_type(t: md::LinkType) -> LinkType {
    match t {
        md::LinkType::Inline => LinkType::Inline,
        md::LinkType::Reference => LinkType::Reference,
        md::LinkType::ReferenceUnknown => LinkType::ReferenceUnknown,
        md::LinkType::Collapsed => LinkType::Collapsed,
        md::LinkType::CollapsedUnknown => LinkType::CollapsedUnknown,
        md::LinkType::Shortcut => LinkType::Shortcut,
        md::LinkType::ShortcutUnknown => LinkType::ShortcutUnknown,
        md::LinkType::Autolink => LinkType::Autolink,
        md::LinkType::Email => LinkType::Email,
    }
}

fn md_link_type(t: LinkType) -> md::LinkType {
    match t {
        LinkType::Inline => md::LinkType::Inline,
        LinkType::Reference => md::LinkType::Reference,
        LinkType::ReferenceUnknown => md::LinkType::ReferenceUnknown,
        LinkType::Collapsed => md::LinkType::Collapsed,
        LinkType::CollapsedUnknown => md::LinkType::CollapsedUnknown,
        LinkType::Shortcut => md::LinkType::Shortcut,
        LinkType::ShortcutUnknown => md::LinkType::ShortcutUnknown,
        LinkType::Autolink => md::LinkType::Autolink,
        LinkType::Email => md::LinkType::Email,
    }
}

fn alignment(a: md::Alignment) -> Alignment {
    match a {
        md::Alignment::None => Alignment::Unaligned,
        md::Alignment::Left => Alignment::Left,
        md::Alignment::Center => Alignment::Center,
        md::Alignment::Right => Alignment::Right,
    }
}

fn md_alignment(a: Alignment) -> md::Alignment {
    match a {
        Alignment::Unaligned => md::Alignment::None,
        Alignment::Left => md::Alignment::Left,
        Alignment::Center => md::Alignment::Center,
        Alignment::Right => md::Alignment::Right,
    }
}

fn tag(t: md::Tag) -> Tag {
    match t {
        md::Tag::Paragraph => Tag::Paragraph,
        md::Tag::Heading(l) => Tag::Heading(l),
        md::Tag::BlockQuote => Tag::BlockQuote,
        md::Tag::CodeBlock(md::CodeBlockKind::Indented) => Tag::CodeBlock(CodeBlockKind::Indented),
        md::Tag::CodeBlock(md::CodeBlockKind::Fenced(i)) => {
            Tag::CodeBlock(CodeBlockKind::Fenced(i.to_string()))
        }
        md::Tag::List(n) => Tag::List(n),
        md::Tag::Item => Tag::Item,
        md::Tag::FootnoteDefinition(s) => Tag::FootnoteDefinition(s.to_string()),
        md::Tag::Table(a) => Tag::Table(a.into_iter().map(alignment).collect()),
        md::Tag::TableHead => Tag::TableHead,
        md::Tag::TableRow => Tag::TableRow,
        md::Tag::TableCell => Tag::TableCell,
        md::Tag::Emphasis => Tag::Emphasis,
        md::Tag::Strong => Tag::Strong,
        md::Tag::Strikethrough => Tag::Strikethrough,
        md::Tag::Link(t, u, ti) => Tag::Link(link_type(t), u.to_string(), ti.to_string()),
        md::Tag::Image(t, u, ti) => Tag::Image(link_type(t), u.to_string(), ti.to_string()),
    }
}

fn md_tag(t: Tag) -> md::Tag<'static> {
    match t {
        Tag::Paragraph => md::Tag::Paragraph,
        Tag::Heading(l) => md::Tag::Heading(l),
        Tag::BlockQuote => md::Tag::BlockQuote,
        Tag::CodeBlock(CodeBlockKind::Indented) => md::Tag::CodeBlock(md::CodeBlockKind::Indented),
        Tag::CodeBlock(CodeBlockKind::Fenced(i)) => {
            md::Tag::CodeBlock(md::CodeBlockKind::Fenced(i.into()))
        }
        Tag::List(n) => md::Tag::List(n),
        Tag::Item => md::Tag::Item,
        Tag::FootnoteDefinition(s) => md::Tag::FootnoteDefinition(s.into()),
        Tag::Table(a) => md::Tag::Table(a.into_iter().map(md_alignment).collect()),
        Tag::TableHead => md::Tag::TableHead,
        Tag::TableRow => md::Tag::TableRow,
        Tag::TableCell => md::Tag::TableCell,
        Tag::Emphasis => md::Tag::Emphasis,
        Tag::Strong => md::Tag::Strong,
        Tag::Strikethrough => md::Tag::Strikethrough,
        Tag::Link(t, u, ti) => md::Tag::Link(md_link_type(t), u.into(), ti.into()),
        Tag::Image(t, u, ti) => md::Tag::Image(md_link_type(t), u.into(), ti.into()),
    }
}

fn event(e: md::Event) -> Event {
    match e {
        md::Event::Start(t) => Event::Start(tag(t)),
        md::Event::End(t) => Event::End(tag(t)),
        md::Event::Text(s) => Event::Text(s.to_string()),
        md::Event::Code(s) => Event::Code(s.to_string()),
        md::Event::Html(s) => Event::Html(s.to_string()),
        md::Event::FootnoteReference(s) => Event::FootnoteReference(s.to_string()),
        md::Event::SoftBreak => Event::SoftBreak,
        md::Event::HardBreak => Event::HardBreak,
        md::Event::Rule => Event::Rule,
        md::Event::TaskListMarker(b) => Event::TaskListMarker(b),
    }
}

fn md_event(e: Event) -> md::Event<'static> {
    match e {
        Event::Start(t) => md::Event::Start(md_tag(t)),
        Event::End(t) => md::Event::End(md_tag(t)),
        Event::Text(s) => md::Event::Text(s.into()),
        Event::Code(s) => md::Event::Code(s.into()),
        Event::Html(s) => md::Event::Html(s.into()),
        Event::FootnoteReference(s) => md::Event::FootnoteReference(s.into()),
        Event::SoftBreak => md::Event::SoftBreak,
        Event::HardBreak => md::Event::HardBreak,
        Event::Rule => md::Event::Rule,
        Event::TaskListMarker(b) => md::Event::TaskListMarker(b),
    }
}

fn events_of(input: &str) -> Vec<Event> {
    let mut options = md::Options::empty();
    options.insert(md::Options::ENABLE_STRIKETHROUGH);
    options.insert(md::Options::ENABLE_TASKLISTS);
    options.insert(md::Options::ENABLE_TABLES);
    md::Parser::new_ext(input, options).map(event).collect()
}

/// Runs the pipeline and renders its buffer, without sanitizing.
fn render(input: &str, options: Option<ParseOptions>) -> (String, ParsedMarkdown) {
    let mut parser = MarkdownParser::new(options);
    let mut parsed = parser.parse(events_of(input));
    let events = std::mem::take(&mut parsed.events);
    let mut html = String::new();
    md::html::push_html(&mut html, events.into_iter().map(md_event));
    (html, parsed)
}

/// Runs the pipeline, renders and sanitizes.
fn parse(input: &str, options: Option<ParseOptions>) -> (String, ParsedMarkdown) {
    let (html, parsed) = render(input, options);
    (sanitize(&html), parsed)
}

fn with_root(root: &str) -> ParseOptions {
    let mut options = ParseOptions::default();
    options.url_root = root.to_string();
    options
}

fn with_params(params: &[(&str, &str)]) -> ParseOptions {
    let mut options = ParseOptions::default();
    for (k, v) in params {
        options.url_params.push((k.to_string(), v.to_string()));
    }
    options
}

fn assert_matches(actual: &str, expected: &str) {
    let squash = |s: &str| s.trim().replace('\n', "").replace(' ', "");
    assert!(
        squash(actual) == squash(expected),
        "Expected and actual did not match:\n{}\n{}",
        actual,
        expected
    );
}

fn count(haystack: &str, needle: &str) -> usize {
    haystack.matches(needle).count()
}

#[test]
fn parses_a_markdown_doc() {
    let input = "# My heading\n\nSome content\n\n## Some other heading\n";
    let (html, parsed) = parse(input, None);
    assert_eq!(
        html,
        "<h1 id=\"my-heading\">My heading</h1>\n<p>Some content</p>\n<h2 id=\"some-other-heading\">Some other heading</h2>\n"
    );
    assert_eq!(
        parsed.headings,
        vec![
            Heading {
                title: "My heading".to_string(),
                anchor: "my-heading".to_string(),
                level: 1,
            },
            Heading {
                title: "Some other heading".to_string(),
                anchor: "some-other-heading".to_string(),
                level: 2,
            }
        ]
    );
}

#[test]
fn optionally_rewrites_link_root_path() {
    let input = "[an link](/foo/bar)\n";
    let (html, _) = parse(input, None);
    assert_eq!(html, "<p><a href=\"/foo/bar\">an link</a></p>\n");
    let (html, _) = parse(input, Some(with_root("/other/root")));
    assert_eq!(html, "<p><a href=\"/other/root/foo/bar\">an link</a></p>\n");
}

#[test]
fn does_not_rewrite_non_absolute_urls() {
    let (html, _) = parse("[an link](https://www.google.com)\n", Some(with_root("/other/root")));
    assert_eq!(html, "<p><a href=\"https://www.google.com\">an link</a></p>\n");
    let (html, _) = parse("[an link](relative/link)\n", Some(with_root("/other/root")));
    assert_eq!(html, "<p><a href=\"relative/link\">an link</a></p>\n");
}

#[test]
fn rewrites_any_image_that_has_an_explicit_rewrite_mapping() {
    let mut options = ParseOptions::default();
    options.link_rewrite_rules.push((
        "/assets/cat.jpg".to_string(),
        "https://example.com/cat.jpg".to_string(),
    ));
    let (html, _) = parse("![an image](/assets/cat.jpg)\n", Some(options));
    assert_eq!(
        html,
        "<p><img src=\"https://example.com/cat.jpg\" alt=\"an image\"></p>\n"
    );
}

#[test]
fn rewrites_any_link_that_has_an_explicit_rewrite_mapping() {
    let mut options = ParseOptions::default();
    options.link_rewrite_rules.push((
        "/assets/plans.pdf".to_string(),
        "https://example.com/plans.pdf".to_string(),
    ));
    let (html, _) = parse("[an document](/assets/plans.pdf)\n", Some(options));
    assert_eq!(
        html,
        "<p><a href=\"https://example.com/plans.pdf\">an document</a></p>\n"
    );
}

#[test]
fn appends_parameters_to_the_end_of_urls() {
    let (html, _) = parse("[an link](relative/link)\n", Some(with_params(&[("base", "123")])));
    assert_eq!(html, "<p><a href=\"relative/link?base=123\">an link</a></p>\n");
}

#[test]
fn appends_multiple_parameters_to_the_end_of_urls() {
    let options = with_params(&[("bases", "are"), ("belong", "tous")]);
    let (html, _) = parse("[an link](relative/link)\n", Some(options));
    assert!(html.contains("bases=are"));
    assert!(html.contains("belong=tous"));
    assert!(html.contains("&amp;"));
}

#[test]
fn appends_multiple_parameters_to_the_end_of_absolute_urls() {
    let (html, _) = parse("[an link](/absolute/link)\n", Some(with_params(&[("base", "123")])));
    assert_eq!(html, "<p><a href=\"/absolute/link?base=123\">an link</a></p>\n");
}

#[test]
fn does_not_append_params_to_urls_with_a_specific_domain() {
    let options = with_params(&[("bases", "are"), ("belong", "tous")]);
    let (html, _) = parse("[an link](http://www.example.com/)\n", Some(options));
    assert_eq!(html, "<p><a href=\"http://www.example.com/\">an link</a></p>\n");
}

#[test]
fn sanitizes_input() {
    let input = "<script>\nalert('I break you');\n</script>\n";
    let (html, _) = parse(input, Some(ParseOptions::default()));
    assert_eq!(html, "\n");
}

#[test]
fn allows_mermaid_blocks() {
    let input = "```mermaid\ngraph TD;\n    A-->B;\n    A-->C;\n```\n";
    let (html, _) = parse(input, Some(ParseOptions::default()));
    assert_eq!(
        html,
        "<div class=\"mermaid\">\ngraph TD;\n    A--&gt;B;\n    A--&gt;C;\n</div>"
    );
}

#[test]
fn gathers_a_list_of_links_on_the_page() {
    let input = "[foo](/bar)\n\n[Example](https://www.example.com)\n";
    let (_, parsed) = parse(input, Some(ParseOptions::default()));
    assert_eq!(
        parsed.links,
        vec![
            Link {
                title: "foo".to_string(),
                url: UrlType::Local("/bar".to_string())
            },
            Link {
                title: "Example".to_string(),
                url: UrlType::Remote(
                    url::Url::parse("https://www.example.com").unwrap().to_string()
                )
            }
        ]
    );
}

#[test]
fn gathers_the_internal_text_of_a_link() {
    let input = "[**BOLD**](/bar)\n[![AltText](/src/foo)](/bar)\n## [AnHeader](/bar)\n";
    let (_, parsed) = parse(input, Some(ParseOptions::default()));
    let local = |t: &str| Link {
        title: t.to_string(),
        url: UrlType::Local("/bar".to_string()),
    };
    assert_eq!(
        parsed.links,
        vec![local("BOLD"), local("AltText"), local("AnHeader")]
    );
}

#[test]
fn detects_emojis() {
    let (html, _) = parse("I am :grinning:.\n", Some(ParseOptions::default()));
    assert_eq!(html, "<p>I am 😀.</p>\n");
}

#[test]
fn detects_emojis_in_links() {
    let (html, _) = parse("[:grinning:](/foo)\n", Some(ParseOptions::default()));
    assert_eq!(html, "<p><a href=\"/foo\">😀</a></p>\n");
}

#[test]
fn leaves_the_emoji_identifier_alone_if_it_is_not_recognised() {
    let (html, _) = parse("Look at this :idonotexist:\n", Some(ParseOptions::default()));
    assert_eq!(html, "<p>Look at this :idonotexist:</p>\n");
}

#[test]
fn ignores_identifiers_that_do_not_end() {
    let (html, _) = parse("Look at this :stop\n", Some(ParseOptions::default()));
    assert_eq!(html, "<p>Look at this :stop</p>\n");
}

#[test]
fn ignores_identifiers_that_do_not_end_with_whitespace() {
    let (html, _) = parse("Look at this :stop MORE\n", Some(ParseOptions::default()));
    assert_eq!(html, "<p>Look at this :stop MORE</p>\n");
}

#[test]
fn does_not_allow_random_forms() {
    let input = "<form>
  <label for=\"ufname\">First name:</label><br>
  <input type=\"text\" id=\"fname\" name=\"fname\"><br>
  <label for=\"lname\">Last name:</label><br>
  <input type=\"text\" id=\"lname\" name=\"lname\">
</form>
";
    let (html, _) = parse(input, Some(ParseOptions::default()));
    assert_matches(&html, "");
}

#[test]
fn it_detects_math_blocks() {
    let input = "```math
% \\f is defined as #1f(#2) using the macro
\\f\\relax{x} = \\int_{-\\infty}^\\infty
    \\f\\hat\\xi\\,e^{2 \\pi i \\xi x}
    \\,d\\xi
```
";
    let (html, _) = parse(input, Some(ParseOptions::default()));
    assert!(html.contains("class=\"math\""));
    assert!(html.contains("f is defined as"));
}

#[test]
fn code_blocks_in_headings_included_in_heading_titles() {
    let (_, parsed) = parse("# Foo `bar` baz\n", Some(ParseOptions::default()));
    let heading = parsed.headings.get(0).unwrap();
    assert!(
        heading.title == "Foo bar baz",
        "Incorrect title. Expected \"Foo bar baz\", got \"{}\"",
        heading.title
    );
}

#[test]
fn markdown_tests_supports_callout_blocks() {
    let kinds = [
        ("info", "info"),
        ("notice", "info"),
        ("success", "success"),
        ("warn", "warning"),
        ("warning", "warning"),
        ("error", "error"),
    ];
    let input = kinds
        .iter()
        .map(|(kind, _)| format!("> {} An Note\n>\n> The content\n>\n> More content", kind))
        .collect::<Vec<_>>()
        .join("\n\n---\n\n");
    let (html, _) = render(&input, None);
    for (_, css) in kinds {
        let open = format!(
            "<div class=\"callout {}\"><p class=\"callout-title\">An Note</p><div class=\"callout-content\">",
            css
        );
        assert!(html.contains(&open), "missing {} in {}", open, html);
    }
    assert_eq!(count(&html, "<p class=\"callout-title\">An Note</p>"), 6);
    assert_eq!(count(&html, "<p>The content</p>"), 6);
    assert_eq!(count(&html, "<p>More content</p>"), 6);
    assert_eq!(count(&html, "</div></div>"), 6);
    assert!(!html.contains("blockquote"));
}

#[test]
fn warning_callout_has_one_wrapper_and_one_title() {
    let (html, _) = parse("> warning Title\n>\n> Body text\n", None);
    assert_eq!(count(&html, "<div class=\"callout warning\">"), 1);
    assert_eq!(count(&html, "<p class=\"callout-title\">Title</p>"), 1);
    assert_eq!(count(&html, "callout-title"), 1);
    assert!(html.contains("<p>Body text</p>"));
}

#[test]
fn callout_without_title_has_no_title_paragraph() {
    let (html, _) = render("> info\n>\n> Body\n", None);
    assert!(html.contains("<div class=\"callout info\"><div class=\"callout-content\">"));
    assert!(!html.contains("callout-title"));
}

#[test]
fn plain_block_quotes_are_left_alone() {
    let (html, _) = render("> just a quote\n", None);
    assert_eq!(html, "<blockquote>\n<p>just a quote</p>\n</blockquote>\n");
}

#[test]
fn block_quote_opening_with_an_image_is_left_alone() {
    let (html, _) = render("> ![pic](/cat.jpg)\n", None);
    assert!(html.contains("<blockquote>"));
    assert!(!html.contains("callout"));
}

#[test]
fn links_are_collected_in_document_order() {
    let (_, parsed) = parse("[foo](/bar) then [Example](https://x.com)\n", None);
    assert_eq!(
        parsed.links,
        vec![
            Link {
                title: "foo".to_string(),
                url: UrlType::Local("/bar".to_string())
            },
            Link {
                title: "Example".to_string(),
                url: UrlType::Remote("https://x.com/".to_string())
            }
        ]
    );
}

#[test]
fn heading_anchor_is_the_slug_of_the_title() {
    let (html, parsed) = parse("# My Heading\n\n# My Heading\n\n# Other one!\n", None);
    assert_eq!(parsed.headings[0].anchor, "my-heading");
    assert_eq!(parsed.headings[1].anchor, "my-heading");
    assert_eq!(parsed.headings[2].anchor, "other-one");
    assert_eq!(count(&html, "<h1 id=\"my-heading\">"), 2);
}

#[test]
fn rewrites_absolute_paths_under_the_root_and_leaves_others() {
    let options = || Some(with_root("/other/root/"));
    let (html, _) = parse("[x](/foo/bar)\n", options());
    assert_eq!(html, "<p><a href=\"/other/root/foo/bar\">x</a></p>\n");
    let (html, _) = parse("[x](relative/link)\n", options());
    assert!(html.contains("href=\"relative/link\""));
    let (html, _) = parse("[x](https://example.com/a)\n", options());
    assert!(html.contains("href=\"https://example.com/a\""));
}

#[test]
fn parameters_only_go_to_local_links() {
    let options = || Some(with_params(&[("a", "1"), ("b", "2")]));
    let (html, _) = render("[x](rel)\n", options());
    assert_eq!(html, "<p><a href=\"rel?a=1&amp;b=2\">x</a></p>\n");
    let (html, _) = render("[x](http://ext.com)\n", options());
    assert_eq!(html, "<p><a href=\"http://ext.com\">x</a></p>\n");
}

#[test]
fn mermaid_block_sets_the_diagram_feature() {
    let (html, parsed) = render("```mermaid\nA-->B\n```\n", None);
    assert_eq!(html, "<div class=\"mermaid\">\nA--&gt;B\n</div>");
    assert_eq!(parsed.blocks, vec!["diagram".to_string()]);
}

#[test]
fn unknown_fence_language_leaves_a_code_block() {
    let (html, parsed) = render("```nosuchlanguage\nx < y\n```\n", None);
    assert_eq!(
        html,
        "<pre><code class=\"language-nosuchlanguage\">x &lt; y\n</code></pre>\n"
    );
    assert!(parsed.blocks.is_empty());
}

#[test]
fn known_fence_language_is_highlighted() {
    let (html, parsed) = render("```rust\nfn main() {}\n```\n", None);
    assert!(html.contains("<span class=\""), "{}", html);
    assert!(html.contains("main"));
    assert_eq!(parsed.blocks, vec!["code".to_string()]);
}

#[test]
fn features_are_recorded_once() {
    let (_, parsed) = render("```math\na\n```\n\n```math\nb\n```\n\n```mermaid\nc\n```\n", None);
    assert_eq!(parsed.blocks, vec!["math".to_string(), "diagram".to_string()]);
}

#[test]
fn script_is_removed_entirely() {
    assert_eq!(sanitize("<script>alert(1)</script>"), "");
    assert_eq!(sanitize("<p>a</p><style>p{}</style>"), "<p>a</p>");
}

#[test]
fn sanitizer_keeps_listed_classes_only() {
    assert_eq!(
        sanitize("<div class=\"callout warning other\">x</div>"),
        "<div class=\"callout warning\">x</div>"
    );
    assert_eq!(sanitize("<h2 id=\"a\" class=\"b\">t</h2>"), "<h2 id=\"a\">t</h2>");
    assert_eq!(sanitize("<unknown>kept</unknown>"), "kept");
}

#[test]
fn sanitizing_twice_changes_nothing_more() {
    let (once, _) = parse("# Title\n\n> info Note\n>\n> Body\n\n* [x] done\n", None);
    assert_eq!(sanitize(&once), once);
}

#[test]
fn tab_group_with_closing_rule() {
    let input = "# [Tab1](#/tab/a)\nFoo\n# [Tab2](#/tab/b)\nBar\n\n---\n";
    let (html, parsed) = render(input, None);
    assert_eq!(count(&html, "<div class=\"tab-panel "), 2);
    assert_eq!(count(&html, "<div class=\"tab-panel active\" data-tab-id=\"a\">"), 1);
    assert_eq!(count(&html, "<div class=\"tab-panel \" data-tab-id=\"b\">"), 1);
    assert_eq!(count(&html, "<ul class=\"tab-list\" role=\"tablist\">"), 1);
    assert_eq!(count(&html, "<label "), 2);
    assert!(html.contains("<label class=\"active\" id=\"a\" title=\"Tab1\" role=\"tab\">Tab1</label>"));
    assert!(html.contains("<label class=\"\" id=\"b\" title=\"Tab2\" role=\"tab\">Tab2</label>"));
    assert!(!html.contains("<tabstrip/>"));
    assert!(!html.contains("<h1"));
    assert!(!html.contains("<hr"));
    assert_eq!(count(&html, "<div"), count(&html, "</div>"));
    assert!(parsed.links.iter().all(|l| l.title != "Tab1"));
}

#[test]
fn tab_group_closed_at_end_of_document() {
    let input = "# [Tab1](#/tab/a)\nFoo\n# [Tab2](#/tab/b)\nBar\n";
    let (html, _) = render(input, None);
    assert_eq!(count(&html, "<div class=\"tab-panel "), 2);
    assert_eq!(count(&html, "<ul class=\"tab-list\" role=\"tablist\">"), 1);
    assert_eq!(count(&html, "<label "), 2);
    assert!(!html.contains("<tabstrip/>"));
    assert_eq!(count(&html, "<div"), count(&html, "</div>"));
    assert!(html.ends_with("</div></div>") || html.trim_end().ends_with("</div>"));
}

#[test]
fn checklist_gets_its_class() {
    let (html, _) = render("* [ ] A\n* [x] B\n", None);
    assert!(html.starts_with("<ul class=\"checklist\">"), "{}", html);
    assert_eq!(count(&html, "<input disabled=\"\" type=\"checkbox\""), 2);
    assert_eq!(count(&html, "checked=\"\""), 1);
    let second = html.find("B").unwrap();
    let checked = html.find("checked").unwrap();
    assert!(checked < second && checked > html.find("A").unwrap());
}

#[test]
fn plain_list_keeps_its_opening_tag() {
    let (html, _) = render("* A\n* B\n", None);
    assert!(html.starts_with("<ul>"));
}

#[test]
fn preview_is_the_first_paragraph_text() {
    let (_, parsed) = render("# Title\n\nFirst words here.\n\nLater.\n", None);
    assert_eq!(parsed.preview, "First words here.");
}

#[test]
fn callout_keywords_name_their_kinds() {
    assert_eq!(CalloutKind::from_keyword("notice"), Some(CalloutKind::Info));
    assert_eq!(CalloutKind::from_keyword("warn"), Some(CalloutKind::Warning));
    assert_eq!(CalloutKind::from_keyword("Warning"), None);
    assert_eq!(CalloutKind::Error.name(), "error");
    assert_eq!(
        Callout::build("success"),
        Ok(Callout {
            kind: CalloutKind::Success,
            title: Some("success".to_string())
        })
    );
    assert_eq!(Callout::build("nope"), Err("Unknown callout kind"));
    assert_eq!(
        Callout::build_with_title("info", ""),
        Ok(Callout {
            kind: CalloutKind::Info,
            title: None
        })
    );
}

#[test]
fn callout_lines_join_their_title_words() {
    assert_eq!(
        parse_callout("  warning   An\tImportant  Note "),
        Some(Callout {
            kind: CalloutKind::Warning,
            title: Some("An Important Note".to_string())
        })
    );
    assert_eq!(parse_callout("   "), None);
    assert_eq!(parse_callout("tip: nothing"), None);
    assert_eq!(
        split_whitespace(" a  b\u{3000}c "),
        vec!["a".to_string(), "b".to_string(), "c".to_string()]
    );
}

#[test]
fn urls_are_classified_by_the_url_parser() {
    assert_eq!(
        classify_url("https://x.com"),
        Some(UrlType::Remote("https://x.com/".to_string()))
    );
    assert_eq!(classify_url("/bar"), Some(UrlType::Local("/bar".to_string())));
    assert_eq!(classify_url("http://"), Some(UrlType::Local("http://".to_string())));
    assert_eq!(classify_url("http://[::1"), None);
    assert!(is_in_local_domain("relative/link"));
    assert!(is_in_local_domain("file:///tmp/a"));
    assert!(!is_in_local_domain("https://example.com/"));
    assert!(!is_in_local_domain("http://[::1"));
}

#[test]
fn parameters_are_joined_in_order() {
    let params = vec![
        ("k".to_string(), "v".to_string()),
        ("x".to_string(), "y".to_string()),
    ];
    assert_eq!(append_parameters("p".to_string(), &params), "p?k=v&x=y");
    assert_eq!(append_parameters("p".to_string(), &vec![]), "p?");
}

#[test]
fn emoji_shortcodes_are_replaced() {
    let e = EmojiConverter;
    assert_eq!(e.process_text(":grinning::smile:"), "😀😄");
    assert_eq!(e.process_text("a:nosuchcode:c:grinning:"), "a:nosuchcode:c😀");
    assert_eq!(e.process_text("::grinning:"), ":😀");
    assert_eq!(e.process_text("no codes"), "no codes");
}

#[test]
fn highlighted_markup_replaces_the_code_body() {
    let mut events = vec![
        Event::Start(Tag::CodeBlock(CodeBlockKind::Fenced("rust".to_string()))),
        Event::Text("let x = 1;\n".to_string()),
    ];
    let end = Event::End(Tag::CodeBlock(CodeBlockKind::Fenced("rust".to_string())));
    let (out, handled) = apply_highlight(&mut events, &end, Some("<b>hi</b>".to_string()));
    assert!(handled);
    assert_eq!(events[1], Event::Html("<b>hi</b>".to_string()));
    assert_eq!(
        out,
        Some(vec![Output::Event(end.clone()), Output::Block("code".to_string())])
    );
    let mut unchanged = vec![Event::Text("x".to_string())];
    assert_eq!(apply_highlight(&mut unchanged, &end, None), (None, false));
    assert_eq!(unchanged, vec![Event::Text("x".to_string())]);
}

#[test]
fn code_extension_highlights_known_languages_only() {
    let mut code = CodeBlock;
    let body = Event::Text("fn main() {}\n".to_string());
    let mut events = vec![body.clone()];
    let end = Event::End(Tag::CodeBlock(CodeBlockKind::Fenced("rust".to_string())));
    let (_, handled) = code.process_event(&mut events, &end);
    assert!(handled);
    match &events[0] {
        Event::Html(h) => assert!(h.contains("<span")),
        other => panic!("not highlighted: {:?}", other),
    }
    let mut events = vec![body.clone()];
    let end = Event::End(Tag::CodeBlock(CodeBlockKind::Fenced("zzz".to_string())));
    assert_eq!(code.process_event(&mut events, &end), (None, false));
    assert_eq!(events, vec![body]);
}

#[test]
fn readme_rule_is_the_docs_readme() {
    let rule = NavRule::File("docs/README.md".to_string());
    assert!(rule.is_default_readme_rule("/project", "/project/docs"));
    assert!(rule.is_default_readme_rule("/project/", "/project/./docs/"));
    assert!(!rule.is_default_readme_rule("/project", "/elsewhere/docs"));
    let absolute = NavRule::File("/project/docs/README.md".to_string());
    assert!(absolute.is_default_readme_rule("/other", "/project/docs"));
    let dir = NavRule::Dir("docs".to_string(), None);
    assert!(!dir.is_default_readme_rule("/project", "/project/docs"));
    assert_eq!(BuildMode::Release.name(), "release");
}

#[test]
fn sanitized_checklist_keeps_its_class() {
    let (html, _) = parse("* [ ] Incomplete\n* [x] Complete\n", None);
    let expected = "<ul class=\"checklist\">
        <li><input disabled=\"\" type=\"checkbox\">Incomplete</li>
        <li><input disabled=\"\" type=\"checkbox\" checked=\"\">Complete</li>
    </ul>";
    assert_matches(&html, expected);
}

#[test]
fn sanitized_tab_strip_keeps_its_roles() {
    let (html, _) = parse("# [Tab1](#/tab/a)\nFoo\n# [Tab2](#/tab/b)\nBar\n", None);
    assert!(html.contains("<ul class=\"tab-list\" role=\"tablist\">"), "{}", html);
    assert!(html.contains("<li role=\"presentation\">"));
    assert!(html.contains("id=\"a\""));
    assert!(html.contains("data-tab-id=\"b\""));
}

#[test]
fn tab_link_outside_a_heading_is_an_ordinary_link() {
    let (html, parsed) = render("[Tab1](#/tab/a)\n", None);
    assert!(!html.contains("tabgroup"), "{}", html);
    assert_eq!(html, "<p><a href=\"#/tab/a\">Tab1</a></p>\n");
    assert_eq!(parsed.links.len(), 1);
}

#[test]
fn only_the_first_declared_tab_is_active() {
    let (html, _) = render("# [A](#/tab/a) [B](#/tab/b)\nFoo\n# [C](#/tab/c)\nBar\n", None);
    assert_eq!(count(&html, "<div class=\"tab-panel active\""), 1);
    assert_eq!(count(&html, "<label class=\"active\""), 1);
    assert_eq!(count(&html, "<label "), 3);
    assert!(html.contains("<label class=\"active\" id=\"a\""));
    assert_eq!(count(&html, "<div"), count(&html, "</div>"));
}

#[test]
fn end_of_document_closes_a_group_like_a_rule() {
    let x = "# [Tab1](#/tab/a)\nFoo\n# [Tab2](#/tab/b)\nBar";
    let (open, _) = render(x, None);
    let (closed, _) = render(&format!("{}\n\n---", x), None);
    assert_eq!(open, closed);
}

#[test]
fn images_get_the_query_parameters_too() {
    let (html, _) = render("![pic](/cat.jpg)\n", Some(with_params(&[("v", "2")])));
    assert!(html.contains("src=\"/cat.jpg?v=2\""), "{}", html);
    let (html, _) = render("![pic](https://x.com/cat.jpg)\n", Some(with_params(&[("v", "2")])));
    assert!(html.contains("src=\"https://x.com/cat.jpg\""), "{}", html);
}

#[test]
fn nested_task_list_marks_its_own_list() {
    let (html, _) = render("* [x] outer\n  * inner\n", None);
    assert!(html.starts_with("<ul class=\"checklist\">"), "{}", html);
    assert_eq!(count(&html, "<ul class=\"checklist\">"), 1, "{}", html);
    assert_eq!(count(&html, "<ul>"), 1, "{}", html);
}

#[test]
fn plain_list_after_a_task_list_stays_plain() {
    let (html, _) = render("* [ ] a\n\ntext\n\n* b\n", None);
    assert_eq!(count(&html, "<ul class=\"checklist\">"), 1, "{}", html);
    assert!(html.contains("<ul>\n<li>b</li>"), "{}", html);
}

#[test]
fn highlighter_gets_the_first_word_of_the_info_string() {
    let (html, parsed) = render("```rust  extra words\nfn main() {}\n```\n", None);
    assert!(html.contains("<span class=\""), "{}", html);
    assert_eq!(parsed.blocks, vec!["code".to_string()]);
}
