use made_up::html::{close_tag, consume, name_to_id, open_tag, Event, Marker, RenderError};
use made_up::text::hyphenate_spaces;

fn text(s: &str) -> Event {
    Event::Text(s.to_string())
}

fn render(events: Vec<Event>) -> String {
    match consume(&events) {
        Ok(out) => out.html,
        Err(_) => panic!("render failed"),
    }
}

fn strip_whitespace(s: &str) -> String {
    s.chars().filter(|c| !c.is_whitespace()).collect()
}

#[test]
fn test_name_to_id() {
    let actual = name_to_id("A very lOng name or Heading");
    assert_eq!("a-very-long-name-or-heading", actual);
}

#[test]
fn identifier_of_empty_text_is_empty() {
    assert_eq!(name_to_id(""), "");
}

#[test]
fn identifier_keeps_runs_of_spaces() {
    assert_eq!(name_to_id("A  B"), "a--b");
}

#[test]
fn identifier_leaves_quotes_alone() {
    assert_eq!(name_to_id("Say \"Hi\""), "say-\"hi\"");
}

#[test]
fn hyphenate_spaces_keeps_case() {
    assert_eq!(hyphenate_spaces("A b  C"), "A-b--C");
    assert_eq!(hyphenate_spaces(""), "");
}

#[test]
fn tags_are_the_same_on_each_call() {
    let markers = vec![
        Marker::Heading(3),
        Marker::Image("pic.png".to_string()),
        Marker::CodeBlock("rust".to_string()),
        Marker::Link("https://example.org".to_string()),
    ];
    for m in &markers {
        assert_eq!(open_tag(m), open_tag(&m.duplicate()));
        assert_eq!(close_tag(m), close_tag(&m.duplicate()));
    }
}

#[test]
fn tag_table_values() {
    assert_eq!(open_tag(&Marker::Heading(4)), Some("<h4 id=\"".to_string()));
    assert_eq!(close_tag(&Marker::Heading(4)), Some("</h4>\n".to_string()));
    assert_eq!(open_tag(&Marker::Strong), Some("<b>".to_string()));
    assert_eq!(close_tag(&Marker::Emphasis), Some("</em>\n".to_string()));
    assert_eq!(
        open_tag(&Marker::CodeBlock("rust".to_string())),
        Some("<pre><code class=\"language-rust\">".to_string())
    );
    assert_eq!(
        open_tag(&Marker::CodeBlock(String::new())),
        Some("<pre><code class=\"language-\">".to_string())
    );
    assert_eq!(close_tag(&Marker::CodeBlock(String::new())), Some("</code></pre>\n".to_string()));
    assert_eq!(open_tag(&Marker::Link("a.html".to_string())), Some("<a href=\"a.html\">".to_string()));
    assert_eq!(open_tag(&Marker::Rule), Some("<hr>".to_string()));
    assert_eq!(close_tag(&Marker::Rule), Some(String::new()));
    assert_eq!(open_tag(&Marker::ListOrdered(3)), Some("<ul>".to_string()));
    assert_eq!(open_tag(&Marker::TableHeadSection), Some("<thead>".to_string()));
    assert_eq!(close_tag(&Marker::TableCell), Some("</td>\n".to_string()));
}

#[test]
fn unsupported_markers_have_no_tags() {
    assert_eq!(open_tag(&Marker::BlockQuote), None);
    assert_eq!(close_tag(&Marker::FootnoteDefinition("1".to_string())), None);
    assert_eq!(open_tag(&Marker::Heading(7)), None);
    assert_eq!(open_tag(&Marker::Heading(0)), None);
}

#[test]
fn heading_round_trip() {
    let html = render(vec![
        Event::Start(Marker::Heading(2)),
        text("My Title"),
        Event::End(Marker::Heading(2)),
    ]);
    assert_eq!(html, "<h2 id=\"my-title\"> My Title</h2>\n");
}

#[test]
fn image_alt_injection() {
    let html = render(vec![
        Event::Start(Marker::Image("pic.png".to_string())),
        text("a cat"),
        Event::End(Marker::Image("pic.png".to_string())),
    ]);
    assert_eq!(html, "<img src=\"pic.png\" alt=\"a cat\"/>\n");
}

#[test]
fn soft_break_is_one_space() {
    let html = render(vec![text("a"), Event::SoftBreak, text("b")]);
    assert_eq!(html, "a b");
}

#[test]
fn raw_html_is_verbatim() {
    let html = render(vec![Event::RawHtml("<div class=\"x\">".to_string())]);
    assert_eq!(html, "<div class=\"x\">");
}

#[test]
fn empty_stream_renders_empty() {
    assert_eq!(render(vec![]), "");
}

#[test]
fn text_after_heading_text_is_plain() {
    let html = render(vec![
        Event::Start(Marker::Heading(1)),
        text("Part"),
        text(" two"),
        Event::End(Marker::Heading(1)),
    ]);
    assert_eq!(html, "<h1 id=\"part\"> Part two</h1>\n");
}

#[test]
fn every_text_in_an_image_is_alt() {
    let html = render(vec![
        Event::Start(Marker::Image("s".to_string())),
        text("x"),
        text("a"),
        Event::End(Marker::Image("s".to_string())),
    ]);
    assert_eq!(html, "<img src=\"s\" alt=\"x\" alt=\"a\"/>\n");
}

#[test]
fn heading_starting_with_markup_closes_its_tag() {
    let html = render(vec![
        Event::Start(Marker::Heading(1)),
        Event::Start(Marker::Emphasis),
        text("x"),
        Event::End(Marker::Emphasis),
        Event::End(Marker::Heading(1)),
    ]);
    assert_eq!(html, "<h1 id=\"\"><em>x</em>\n</h1>\n");
}

#[test]
fn empty_heading_closes_its_tag() {
    let html = render(vec![Event::Start(Marker::Heading(3)), Event::End(Marker::Heading(3))]);
    assert_eq!(html, "<h3 id=\"\"></h3>\n");
}

#[test]
fn raw_html_in_open_heading_closes_its_tag() {
    let html = render(vec![
        Event::Start(Marker::Heading(2)),
        Event::RawHtml("<br>".to_string()),
        text("t"),
    ]);
    assert_eq!(html, "<h2 id=\"\"><br>t");
}

#[test]
fn minor_events_are_dropped_and_listed() {
    let events = vec![
        text("a"),
        Event::HardBreak,
        text("b"),
        Event::InlineHtml("<br>".to_string()),
        Event::FootnoteReference("1".to_string()),
    ];
    match consume(&events) {
        Ok(out) => {
            assert_eq!(out.html, "ab");
            assert_eq!(out.skipped, vec![1, 3, 4]);
        }
        Err(_) => panic!("render failed"),
    }
}

#[test]
fn unsupported_marker_stops_the_render() {
    let events = vec![
        Event::Start(Marker::Paragraph),
        text("x"),
        Event::Start(Marker::BlockQuote),
        Event::Start(Marker::Heading(9)),
    ];
    match consume(&events) {
        Err(RenderError::UnsupportedMarker { index, marker }) => {
            assert_eq!(index, 2);
            assert!(matches!(marker, Marker::BlockQuote));
        }
        Ok(_) => panic!("expected an error"),
    }
}

#[test]
fn unsupported_heading_level_on_close() {
    let events = vec![text("x"), Event::End(Marker::Heading(8))];
    match consume(&events) {
        Err(RenderError::UnsupportedMarker { index, marker }) => {
            assert_eq!(index, 1);
            assert!(matches!(marker, Marker::Heading(8)));
        }
        Ok(_) => panic!("expected an error"),
    }
}

#[test]
fn end_to_end_sample_document() {
    let s = |x: &str| x.to_string();
    let events = vec![
        Event::Start(Marker::Heading(1)),
        text("Sample Page"),
        Event::End(Marker::Heading(1)),
        Event::Start(Marker::Paragraph),
        text("Some "),
        Event::Start(Marker::Strong),
        text("bold"),
        Event::End(Marker::Strong),
        text(" and "),
        Event::Start(Marker::Emphasis),
        text("italic"),
        Event::End(Marker::Emphasis),
        text(" text with "),
        Event::Start(Marker::Code),
        text("code"),
        Event::End(Marker::Code),
        Event::SoftBreak,
        text("and a "),
        Event::Start(Marker::Link(s("https://www.rust-lang.org"))),
        text("link"),
        Event::End(Marker::Link(s("https://www.rust-lang.org"))),
        text("."),
        Event::End(Marker::Paragraph),
        Event::Start(Marker::Heading(2)),
        text("A List"),
        Event::End(Marker::Heading(2)),
        Event::Start(Marker::ListUnordered),
        Event::Start(Marker::ListItem),
        text("one"),
        Event::End(Marker::ListItem),
        Event::Start(Marker::ListItem),
        text("two"),
        Event::End(Marker::ListItem),
        Event::End(Marker::ListUnordered),
        Event::Start(Marker::Paragraph),
        Event::Start(Marker::Image(s("images/crab.png"))),
        text("Ferris"),
        Event::End(Marker::Image(s("images/crab.png"))),
        Event::End(Marker::Paragraph),
        Event::Start(Marker::CodeBlock(s("rust"))),
        text("fn main() {}\n"),
        Event::End(Marker::CodeBlock(s("rust"))),
        Event::Start(Marker::Table),
        Event::Start(Marker::TableHeadSection),
        Event::Start(Marker::TableCell),
        text("Name"),
        Event::End(Marker::TableCell),
        Event::Start(Marker::TableCell),
        text("Value"),
        Event::End(Marker::TableCell),
        Event::End(Marker::TableHeadSection),
        Event::Start(Marker::TableRow),
        Event::Start(Marker::TableCell),
        text("a"),
        Event::End(Marker::TableCell),
        Event::Start(Marker::TableCell),
        text("1"),
        Event::End(Marker::TableCell),
        Event::End(Marker::TableRow),
        Event::End(Marker::Table),
        Event::Start(Marker::Rule),
        Event::End(Marker::Rule),
        Event::RawHtml(s("<div class=\"note\">done</div>\n")),
    ];
    let expected = "<h1 id=\"sample-page\"> Sample Page</h1>
<p>Some <b>bold</b>
 and <em>italic</em>
 text with <code>code</code>
 and a <a href=\"https://www.rust-lang.org\">link</a>
.</p>
<h2 id=\"a-list\"> A List</h2>
<ul><li>one</li>
<li>two</li>
</ul>
<p><img src=\"images/crab.png\" alt=\"Ferris\"/>
</p>
<pre><code class=\"language-rust\">fn main() {}
</code></pre>
<table><thead><td>Name</td>
<td>Value</td>
</thead>
<tr><td>a</td>
<td>1</td>
</tr>
</table>
<hr><div class=\"note\">done</div>
";
    let actual = render(events);
    assert_eq!(strip_whitespace(expected), strip_whitespace(&actual));
}
