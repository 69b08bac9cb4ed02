//! Laws of the renderer, proved over the model that `consume` and the tag
//! tables are specified by.
use vstd::prelude::*;

use crate::html::{
    all_supported, close_pending, close_text, identifier, is_supported, level_ok, level_text, open_text, run,
    Event, Marker, Pending,
};

verus! {

/// The tag tables are functions of the marker alone: two markers of the
/// same variant with the same fields open and close with the same text, and
/// are supported alike.
pub proof fn lemma_tags_depend_on_marker(a: Marker, b: Marker)
    requires
        a == b,
    ensures
        open_text(a) == open_text(b),
        close_text(a) == close_text(b),
        is_supported(a) == is_supported(b),
{
}

/// A heading of a supported level around one text renders as the heading
/// tag whose `id` is the text's identifier, a space, the text, and the
/// closing tag.
pub proof fn lemma_heading_round_trip(n: u32, title: String)
    requires
        level_ok(n),
    ensures
        ({
            let events = seq![
                Event::Start(Marker::Heading(n)),
                Event::Text(title),
                Event::End(Marker::Heading(n)),
            ];
            &&& all_supported(events)
            &&& run(events).0 == "<h"@ + level_text(n) + " id=\""@ + identifier(title@) + "\"> "@
                + title@ + "</h"@ + level_text(n) + ">\n"@
        }),
{
    let events = seq![
        Event::Start(Marker::Heading(n)),
        Event::Text(title),
        Event::End(Marker::Heading(n)),
    ];
    assert(events.drop_last() =~= seq![events[0], events[1]]);
    assert(seq![events[0], events[1]].drop_last() =~= seq![events[0]]);
    assert(seq![events[0]].drop_last() =~= Seq::<Event>::empty());
    assert(run(Seq::<Event>::empty()) == (Seq::<char>::empty(), Pending::Nothing));
    let r1 = run(seq![events[0]]);
    let r2 = run(seq![events[0], events[1]]);
    assert(r1.0 == "<h"@ + level_text(n) + " id=\""@);
    assert(r2.0 == r1.0 + identifier(title@) + "\"> "@ + title@);
    assert(run(events).0 =~= "<h"@ + level_text(n) + " id=\""@ + identifier(title@) + "\"> "@
        + title@ + "</h"@ + level_text(n) + ">\n"@);
}

/// An image around one text renders as the image tag with that text as its
/// `alt` attribute, closed by `/>`.
pub proof fn lemma_image_alt(src: String, alt: String, closing: Marker)
    requires
        closing is Image,
    ensures
        ({
            let events = seq![Event::Start(Marker::Image(src)), Event::Text(alt), Event::End(closing)];
            &&& all_supported(events)
            &&& run(events).0 == "<img src=\""@ + src@ + "\""@ + " alt=\""@ + alt@ + "\""@ + "/>\n"@
        }),
{
    let events = seq![Event::Start(Marker::Image(src)), Event::Text(alt), Event::End(closing)];
    assert(events.drop_last() =~= seq![events[0], events[1]]);
    assert(seq![events[0], events[1]].drop_last() =~= seq![events[0]]);
    assert(seq![events[0]].drop_last() =~= Seq::<Event>::empty());
    assert(run(Seq::<Event>::empty()) == (Seq::<char>::empty(), Pending::Nothing));
    let r1 = run(seq![events[0]]);
    let r2 = run(seq![events[0], events[1]]);
    assert(r1.0 =~= "<img src=\""@ + src@ + "\""@);
    assert(r2.0 == r1.0 + (" alt=\""@ + alt@ + "\""@));
    assert(run(events).0 =~= "<img src=\""@ + src@ + "\""@ + " alt=\""@ + alt@ + "\""@ + "/>\n"@);
}

/// A soft break between two texts renders as one space between them.
pub proof fn lemma_soft_break(a: String, b: String)
    ensures
        ({
            let events = seq![Event::Text(a), Event::SoftBreak, Event::Text(b)];
            &&& all_supported(events)
            &&& run(events).0 == a@ + " "@ + b@
        }),
{
    let events = seq![Event::Text(a), Event::SoftBreak, Event::Text(b)];
    assert(events.drop_last() =~= seq![events[0], events[1]]);
    assert(seq![events[0], events[1]].drop_last() =~= seq![events[0]]);
    assert(seq![events[0]].drop_last() =~= Seq::<Event>::empty());
    assert(run(Seq::<Event>::empty()) == (Seq::<char>::empty(), Pending::Nothing));
    let r1 = run(seq![events[0]]);
    let r2 = run(seq![events[0], events[1]]);
    assert(r1.0 =~= a@);
    assert(r2.0 == r1.0 + " "@);
    assert(run(events).0 =~= a@ + " "@ + b@);
}

/// Raw HTML is appended to the output exactly as it is, after whatever
/// came before it; a heading tag whose `id` is still open is closed first.
pub proof fn lemma_raw_html_verbatim(events: Seq<Event>, content: String)
    ensures
        run(events.push(Event::RawHtml(content))).0 == run(events).0 + close_pending(run(events).1)
            + content@,
        run(events).1 != Pending::HeadingId ==> run(events.push(Event::RawHtml(content))).0
            == run(events).0 + content@,
{
    assert(events.push(Event::RawHtml(content)).drop_last() =~= events);
    if run(events).1 != Pending::HeadingId {
        assert(run(events).0 + close_pending(run(events).1) =~= run(events).0);
    }
}

/// While an image is open, each text adds an `alt` attribute with that
/// text, and the image stays open.
pub proof fn lemma_image_text_is_alt(events: Seq<Event>, text: String)
    requires
        run(events).1 == Pending::ImageAlt,
    ensures
        run(events.push(Event::Text(text))) == (
            run(events).0 + " alt=\""@ + text@ + "\""@,
            Pending::ImageAlt,
        ),
{
    assert(events.push(Event::Text(text)).drop_last() =~= events);
    assert(run(events).0 + (" alt=\""@ + text@ + "\""@) =~= run(events).0 + " alt=\""@ + text@
        + "\""@);
}

} // verus!
