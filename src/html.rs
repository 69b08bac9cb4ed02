//! The Markdown-to-HTML rendering engine: it consumes a stream of parser
//! events once, front to back, and emits an HTML fragment.
use vstd::prelude::*;

use crate::text::{hyphenate_spaces, lower_of, lowercase, spaces_to_hyphens};

verus! {

/// A structural element of a Markdown document, as carried by `Start` and
/// `End` events.
pub enum Marker {
    /// A heading of the given level; levels 1 to 6 can be rendered.
    Heading(u32),
    Strong,
    Emphasis,
    /// An inline code span.
    Code,
    Paragraph,
    ListUnordered,
    /// An ordered list starting at the given number. It is drawn as a
    /// bulleted list and the start number is not rendered.
    ListOrdered(u64),
    ListItem,
    /// An image with its source; the title is not rendered.
    Image(String),
    /// A link with its destination.
    Link(String),
    /// A fenced or indented code block with its language, possibly empty.
    CodeBlock(String),
    /// A table; the alignment of its columns is not rendered.
    Table,
    TableHeadSection,
    TableRow,
    TableCell,
    /// A horizontal rule.
    Rule,
    /// A block quote: there is no markup for it.
    BlockQuote,
    /// A footnote definition with its label: there is no markup for it.
    FootnoteDefinition(String),
}

/// One event of a parsed Markdown document.
pub enum Event {
    Start(Marker),
    End(Marker),
    Text(String),
    /// Block-level HTML, emitted verbatim.
    RawHtml(String),
    /// A line-wrap point, rendered as one space.
    SoftBreak,
    /// A hard line break: not rendered.
    HardBreak,
    /// HTML inside a paragraph: not rendered.
    InlineHtml(String),
    /// A reference to a footnote: not rendered.
    FootnoteReference(String),
}

/// What a following `Text` event completes, if anything.
#[derive(Clone, Copy, PartialEq, Eq, Structural, Debug)]
pub enum Pending {
    /// Text is emitted as it is.
    Nothing,
    /// The `id` attribute of the heading just opened is still open.
    HeadingId,
    /// The image tag just opened still waits for its `alt` attribute.
    ImageAlt,
}

/// Why a document could not be rendered.
pub enum RenderError {
    /// The event at `index` opens or closes a `marker` that has no markup.
    UnsupportedMarker { index: usize, marker: Marker },
}

/// A rendered document: the HTML fragment, and the positions of the events
/// that were dropped because they have no rendering.
pub struct Rendered {
    pub html: String,
    pub skipped: Vec<usize>,
}

// ---------------------------------------------------------------------------
// The model.
// ---------------------------------------------------------------------------

/// The HTML id computed for heading text: lower case, spaces as hyphens.
pub open spec fn identifier(text: Seq<char>) -> Seq<char> {
    spaces_to_hyphens(lower_of(text))
}

/// Whether a heading level has a tag.
pub open spec fn level_ok(n: u32) -> bool {
    1 <= n <= 6
}

/// The decimal digit of a heading level.
pub open spec fn level_text(n: u32) -> Seq<char> {
    if n == 1 {
        "1"@
    } else if n == 2 {
        "2"@
    } else if n == 3 {
        "3"@
    } else if n == 4 {
        "4"@
    } else if n == 5 {
        "5"@
    } else {
        "6"@
    }
}

/// Whether the tag tables have an entry for the marker.
pub open spec fn is_supported(m: Marker) -> bool {
    match m {
        Marker::Heading(n) => level_ok(n),
        Marker::BlockQuote => false,
        Marker::FootnoteDefinition(_) => false,
        _ => true,
    }
}

/// The opening markup of a supported marker. A heading's `id` attribute and
/// an image's tag are left open, for the following text to complete.
pub open spec fn open_text(m: Marker) -> Seq<char> {
    match m {
        Marker::Heading(n) => "<h"@ + level_text(n) + " id=\""@,
        Marker::Strong => "<b>"@,
        Marker::Emphasis => "<em>"@,
        Marker::Code => "<code>"@,
        Marker::Paragraph => "<p>"@,
        Marker::ListUnordered => "<ul>"@,
        Marker::ListOrdered(_) => "<ul>"@,
        Marker::ListItem => "<li>"@,
        Marker::Image(src) => "<img src=\""@ + src@ + "\""@,
        Marker::Link(href) => "<a href=\""@ + href@ + "\">"@,
        Marker::CodeBlock(lang) => "<pre><code class=\"language-"@ + lang@ + "\">"@,
        Marker::Table => "<table>"@,
        Marker::TableHeadSection => "<thead>"@,
        Marker::TableRow => "<tr>"@,
        Marker::TableCell => "<td>"@,
        Marker::Rule => "<hr>"@,
        _ => Seq::empty(),
    }
}

/// The closing markup of a supported marker. A rule closes itself.
pub open spec fn close_text(m: Marker) -> Seq<char> {
    match m {
        Marker::Heading(n) => "</h"@ + level_text(n) + ">\n"@,
        Marker::Strong => "</b>\n"@,
        Marker::Emphasis => "</em>\n"@,
        Marker::Code => "</code>\n"@,
        Marker::Paragraph => "</p>\n"@,
        Marker::ListUnordered => "</ul>\n"@,
        Marker::ListOrdered(_) => "</ul>\n"@,
        Marker::ListItem => "</li>\n"@,
        Marker::Image(_) => "/>\n"@,
        Marker::Link(_) => "</a>\n"@,
        Marker::CodeBlock(_) => "</code></pre>\n"@,
        Marker::Table => "</table>\n"@,
        Marker::TableHeadSection => "</thead>\n"@,
        Marker::TableRow => "</tr>\n"@,
        Marker::TableCell => "</td>\n"@,
        Marker::Rule => Seq::empty(),
        _ => Seq::empty(),
    }
}

/// What a marker leaves open when it starts.
pub open spec fn pending_for(m: Marker) -> Pending {
    match m {
        Marker::Heading(_) => Pending::HeadingId,
        Marker::Image(_) => Pending::ImageAlt,
        _ => Pending::Nothing,
    }
}

/// Whether an event opens or closes a marker that has no markup.
pub open spec fn is_fatal(e: Event) -> bool {
    match e {
        Event::Start(m) => !is_supported(m),
        Event::End(m) => !is_supported(m),
        _ => false,
    }
}

/// Whether an event is dropped, with a diagnostic, for want of a rendering.
pub open spec fn is_minor(e: Event) -> bool {
    e is HardBreak || e is InlineHtml || e is FootnoteReference
}

/// The markup that `Text(text)` adds while `pending` is open.
pub open spec fn text_markup(pending: Pending, text: Seq<char>) -> Seq<char> {
    match pending {
        Pending::HeadingId => identifier(text) + "\"> "@ + text,
        Pending::ImageAlt => " alt=\""@ + text + "\""@,
        Pending::Nothing => text,
    }
}

/// What closes a heading's start tag whose `id` is still open, before
/// anything but its text is rendered: an empty id.
pub open spec fn close_pending(pending: Pending) -> Seq<char> {
    if pending == Pending::HeadingId {
        "\">"@
    } else {
        Seq::empty()
    }
}

/// What stays open once the pending heading tag is closed: an image stays
/// open until its end, a heading's tag does not.
pub open spec fn after_close(pending: Pending) -> Pending {
    if pending == Pending::HeadingId {
        Pending::Nothing
    } else {
        pending
    }
}

/// One step of the renderer on an event without a fatal marker: the output so
/// far and what is open, before and after.
///
/// Each text inside an open image adds an `alt` attribute, until the image
/// ends. The first text of a heading completes its `id`; any other rendered
/// event first closes the heading's tag with an empty `id`.
pub open spec fn step(html: Seq<char>, pending: Pending, e: Event) -> (Seq<char>, Pending) {
    match e {
        Event::Start(m) => (html + close_pending(pending) + open_text(m), pending_for(m)),
        Event::End(m) => (html + close_pending(pending) + close_text(m), Pending::Nothing),
        Event::Text(t) => (
            html + text_markup(pending, t@),
            if pending == Pending::ImageAlt {
                Pending::ImageAlt
            } else {
                Pending::Nothing
            },
        ),
        Event::RawHtml(c) => (html + close_pending(pending) + c@, after_close(pending)),
        Event::SoftBreak => (html + close_pending(pending) + " "@, after_close(pending)),
        _ => (html, pending),
    }
}

/// The renderer as a left fold over the events, from an empty output with
/// nothing open.
pub open spec fn run(events: Seq<Event>) -> (Seq<char>, Pending)
    decreases events.len(),
{
    if events.len() == 0 {
        (Seq::empty(), Pending::Nothing)
    } else {
        let prev = run(events.drop_last());
        step(prev.0, prev.1, events.last())
    }
}

/// The positions of the events that the renderer drops.
pub open spec fn skipped_in(events: Seq<Event>) -> Seq<usize>
    decreases events.len(),
{
    if events.len() == 0 {
        Seq::empty()
    } else {
        let prev = skipped_in(events.drop_last());
        if is_minor(events.last()) {
            prev.push((events.len() - 1) as usize)
        } else {
            prev
        }
    }
}

/// Whether no event of the stream has a fatal marker.
pub open spec fn all_supported(events: Seq<Event>) -> bool {
    forall|i: int| 0 <= i < events.len() ==> !is_fatal(#[trigger] events[i])
}

/// The marker that an event opens or closes.
pub open spec fn marker_of(e: Event) -> Marker
    recommends
        e is Start || e is End,
{
    match e {
        Event::Start(m) => m,
        Event::End(m) => m,
        _ => Marker::Rule,
    }
}

// ---------------------------------------------------------------------------
// The code.
// ---------------------------------------------------------------------------

impl Marker {
    /// A copy of the marker, field by field.
    pub fn duplicate(&self) -> (r: Marker)
        ensures
            r == *self,
    {
        match self {
            Marker::Heading(n) => Marker::Heading(*n),
            Marker::Strong => Marker::Strong,
            Marker::Emphasis => Marker::Emphasis,
            Marker::Code => Marker::Code,
            Marker::Paragraph => Marker::Paragraph,
            Marker::ListUnordered => Marker::ListUnordered,
            Marker::ListOrdered(n) => Marker::ListOrdered(*n),
            Marker::ListItem => Marker::ListItem,
            Marker::Image(s) => Marker::Image(s.clone()),
            Marker::Link(s) => Marker::Link(s.clone()),
            Marker::CodeBlock(s) => Marker::CodeBlock(s.clone()),
            Marker::Table => Marker::Table,
            Marker::TableHeadSection => Marker::TableHeadSection,
            Marker::TableRow => Marker::TableRow,
            Marker::TableCell => Marker::TableCell,
            Marker::Rule => Marker::Rule,
            Marker::BlockQuote => Marker::BlockQuote,
            Marker::FootnoteDefinition(s) => Marker::FootnoteDefinition(s.clone()),
        }
    }
}

fn level_digit(n: u32) -> (r: &'static str)
    requires
        level_ok(n),
    ensures
        r@ == level_text(n),
{
    if n == 1 {
        "1"
    } else if n == 2 {
        "2"
    } else if n == 3 {
        "3"
    } else if n == 4 {
        "4"
    } else if n == 5 {
        "5"
    } else {
        "6"
    }
}

/// Convert the given text to an HTML id: lower case, with each space
/// replaced by a hyphen. Nothing else is changed, and runs of spaces are not
/// collapsed.
pub fn name_to_id(name: &str) -> (r: String)
    ensures
        r@ == identifier(name@),
        name@.len() == 0 ==> r@.len() == 0,
{
    let lowered = lowercase(name);
    hyphenate_spaces(lowered.as_str())
}

/// The opening markup of a marker, or `None` where the marker has none.
pub fn open_tag(marker: &Marker) -> (r: Option<String>)
    ensures
        r is Some <==> is_supported(*marker),
        r matches Some(s) ==> s@ == open_text(*marker),
{
    match marker {
        Marker::Heading(n) => {
            if 1 <= *n && *n <= 6 {
                let mut s = String::from_str("<h");
                s.append(level_digit(*n));
                s.append(" id=\"");
                Some(s)
            } else {
                None
            }
        },
        Marker::Strong => Some(String::from_str("<b>")),
        Marker::Emphasis => Some(String::from_str("<em>")),
        Marker::Code => Some(String::from_str("<code>")),
        Marker::Paragraph => Some(String::from_str("<p>")),
        Marker::ListUnordered => Some(String::from_str("<ul>")),
        Marker::ListOrdered(_) => Some(String::from_str("<ul>")),
        Marker::ListItem => Some(String::from_str("<li>")),
        Marker::Image(src) => {
            let mut s = String::from_str("<img src=\"");
            s.append(src.as_str());
            s.append("\"");
            Some(s)
        },
        Marker::Link(href) => {
            let mut s = String::from_str("<a href=\"");
            s.append(href.as_str());
            s.append("\">");
            Some(s)
        },
        Marker::CodeBlock(lang) => {
            let mut s = String::from_str("<pre><code class=\"language-");
            s.append(lang.as_str());
            s.append("\">");
            Some(s)
        },
        Marker::Table => Some(String::from_str("<table>")),
        Marker::TableHeadSection => Some(String::from_str("<thead>")),
        Marker::TableRow => Some(String::from_str("<tr>")),
        Marker::TableCell => Some(String::from_str("<td>")),
        Marker::Rule => Some(String::from_str("<hr>")),
        Marker::BlockQuote => None,
        Marker::FootnoteDefinition(_) => None,
    }
}

/// The closing markup of a marker, or `None` where the marker has none.
pub fn close_tag(marker: &Marker) -> (r: Option<String>)
    ensures
        r is Some <==> is_supported(*marker),
        r matches Some(s) ==> s@ == close_text(*marker),
{
    match marker {
        Marker::Heading(n) => {
            if 1 <= *n && *n <= 6 {
                let mut s = String::from_str("</h");
                s.append(level_digit(*n));
                s.append(">\n");
                Some(s)
            } else {
                None
            }
        },
        Marker::Strong => Some(String::from_str("</b>\n")),
        Marker::Emphasis => Some(String::from_str("</em>\n")),
        Marker::Code => Some(String::from_str("</code>\n")),
        Marker::Paragraph => Some(String::from_str("</p>\n")),
        Marker::ListUnordered => Some(String::from_str("</ul>\n")),
        Marker::ListOrdered(_) => Some(String::from_str("</ul>\n")),
        Marker::ListItem => Some(String::from_str("</li>\n")),
        Marker::Image(_) => Some(String::from_str("/>\n")),
        Marker::Link(_) => Some(String::from_str("</a>\n")),
        Marker::CodeBlock(_) => Some(String::from_str("</code></pre>\n")),
        Marker::Table => Some(String::from_str("</table>\n")),
        Marker::TableHeadSection => Some(String::from_str("</thead>\n")),
        Marker::TableRow => Some(String::from_str("</tr>\n")),
        Marker::TableCell => Some(String::from_str("</td>\n")),
        Marker::Rule => Some(String::new()),
        Marker::BlockQuote => None,
        Marker::FootnoteDefinition(_) => None,
    }
}

fn pending_after(marker: &Marker) -> (r: Pending)
    ensures
        r == pending_for(*marker),
{
    match marker {
        Marker::Heading(_) => Pending::HeadingId,
        Marker::Image(_) => Pending::ImageAlt,
        _ => Pending::Nothing,
    }
}

/// Append what `Text(text)` renders to while `pending` is open.
fn push_text(html: &mut String, pending: Pending, text: &String)
    ensures
        final(html)@ == old(html)@ + text_markup(pending, text@),
{
    match pending {
        Pending::HeadingId => {
            let id = name_to_id(text.as_str());
            html.append(id.as_str());
            html.append("\"> ");
            html.append(text.as_str());
        },
        Pending::ImageAlt => {
            html.append(" alt=\"");
            html.append(text.as_str());
            html.append("\"");
        },
        Pending::Nothing => {
            html.append(text.as_str());
        },
    }
}

/// Close a heading's start tag whose `id` is still open; returns what stays
/// open.
fn settle(html: &mut String, pending: Pending) -> (r: Pending)
    ensures
        final(html)@ == old(html)@ + close_pending(pending),
        r == after_close(pending),
{
    if pending == Pending::HeadingId {
        html.append("\">");
        Pending::Nothing
    } else {
        assert(old(html)@ + close_pending(pending) =~= old(html)@);
        pending
    }
}

/// Render one event without a fatal marker onto `html`; returns what is open
/// afterwards.
fn render_event(html: &mut String, pending: Pending, e: &Event) -> (r: Pending)
    requires
        !is_fatal(*e),
    ensures
        (final(html)@, r) == step(old(html)@, pending, *e),
{
    match e {
        Event::Start(m) => {
            settle(html, pending);
            let tag = open_tag(m);
            match tag {
                Some(t) => html.append(t.as_str()),
                None => {},
            }
            pending_after(m)
        },
        Event::End(m) => {
            settle(html, pending);
            let tag = close_tag(m);
            match tag {
                Some(t) => html.append(t.as_str()),
                None => {},
            }
            Pending::Nothing
        },
        Event::Text(t) => {
            push_text(html, pending, t);
            if pending == Pending::ImageAlt {
                Pending::ImageAlt
            } else {
                Pending::Nothing
            }
        },
        Event::RawHtml(c) => {
            let rest = settle(html, pending);
            html.append(c.as_str());
            rest
        },
        Event::SoftBreak => {
            let rest = settle(html, pending);
            html.append(" ");
            rest
        },
        _ => pending,
    }
}

/// Render a document's events to an HTML fragment in one forward pass.
///
/// An event whose marker has no markup stops the render with an error that
/// names the first such event. Events with no rendering (hard breaks, inline
/// HTML, footnote references) are dropped and their positions listed.
///
/// Nesting is not checked: an `End` appends its closing markup whether or
/// not its element was opened. Every text inside an open image becomes an
/// `alt` attribute. The first text of a heading completes its `id`; any other
/// markup there closes the tag with an empty `id` first. Text with nothing
/// open is emitted as it is.
pub fn consume(events: &Vec<Event>) -> (r: Result<Rendered, RenderError>)
    ensures
        r is Ok <==> all_supported(events@),
        r matches Ok(out) ==> out.html@ == run(events@).0 && out.skipped@ == skipped_in(events@),
        r matches Err(RenderError::UnsupportedMarker { index, marker }) ==> {
            &&& index < events@.len()
            &&& is_fatal(events@[index as int])
            &&& all_supported(events@.subrange(0, index as int))
            &&& marker == marker_of(events@[index as int])
        },
{
    let mut html = String::new();
    let mut pending = Pending::Nothing;
    let mut skipped: Vec<usize> = Vec::new();
    let mut i: usize = 0;
    while i < events.len()
        invariant
            i <= events@.len(),
            run(events@.subrange(0, i as int)) == (html@, pending),
            skipped@ == skipped_in(events@.subrange(0, i as int)),
            all_supported(events@.subrange(0, i as int)),
        decreases events@.len() - i,
    {
        let e = &events[i];
        let fatal = match e {
            Event::Start(m) => open_tag(m).is_none(),
            Event::End(m) => close_tag(m).is_none(),
            _ => false,
        };
        if fatal {
            let marker = match e {
                Event::Start(m) => m.duplicate(),
                Event::End(m) => m.duplicate(),
                _ => Marker::Rule,
            };
            proof {
                assert(!all_supported(events@)) by {
                    assert(is_fatal(events@[i as int]));
                }
            }
            return Err(RenderError::UnsupportedMarker { index: i, marker });
        }
        let minor = match e {
            Event::HardBreak => true,
            Event::InlineHtml(_) => true,
            Event::FootnoteReference(_) => true,
            _ => false,
        };
        if minor {
            skipped.push(i);
        }
        pending = render_event(&mut html, pending, e);
        proof {
            let next = events@.subrange(0, i + 1);
            assert(next.drop_last() =~= events@.subrange(0, i as int));
            assert(next.last() == events@[i as int]);
            assert forall|j: int| 0 <= j < next.len() implies !is_fatal(#[trigger] next[j]) by {
                if j < i {
                    assert(next[j] == events@.subrange(0, i as int)[j]);
                }
            }
        }
        i = i + 1;
    }
    proof {
        assert(events@.subrange(0, events@.len() as int) =~= events@);
    }
    Ok(Rendered { html, skipped })
}

} // verus!
