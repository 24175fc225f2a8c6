//! Markdown rendering with anchored headings.
//!
//! The markdown parser turns a body into a stream of events. A small state
//! machine walks that stream once: between the opening and the closing of a
//! heading of depth 2, 3 or 4 it gathers the text events into a buffer, lets
//! nothing of the heading's own markup through, and at the closing puts one
//! literal HTML heading with a generated `id` in its place. Everything else is
//! handed to the HTML writer as the parser gave it.

use vstd::prelude::*;
use pulldown_cmark::{CowStr, Event, Options, Parser, Tag, TagEnd};
use pulldown_cmark_toc::TableOfContents;
use crate::slug::{anchor_id, anchor_of};
use crate::text::{append_decimal, decimal};

verus! {

/// What the heading rewrite reads of one parser event.
#[derive(Debug, Clone, PartialEq, Eq)]
pub enum MarkdownEvent {
    /// A heading of the given depth opens.
    HeadingStart(u8),
    /// A heading of the given depth closes.
    HeadingEnd(u8),
    /// A run of text.
    Text(String),
    /// Any other event.
    Other,
}

/// A [`MarkdownEvent`] as plain mathematical data.
pub enum MarkdownEventView {
    HeadingStart(u8),
    HeadingEnd(u8),
    Text(Seq<char>),
    Other,
}

impl View for MarkdownEvent {
    type V = MarkdownEventView;

    open spec fn view(&self) -> MarkdownEventView {
        match self {
            MarkdownEvent::HeadingStart(level) => MarkdownEventView::HeadingStart(*level),
            MarkdownEvent::HeadingEnd(level) => MarkdownEventView::HeadingEnd(*level),
            MarkdownEvent::Text(text) => MarkdownEventView::Text(text@),
            MarkdownEvent::Other => MarkdownEventView::Other,
        }
    }
}

/// One item handed to the HTML writer.
#[derive(Debug, Clone, PartialEq, Eq)]
pub enum Piece {
    /// The parser's event at this position, unchanged.
    Parsed(usize),
    /// A literal block of HTML.
    Html(String),
}

/// A [`Piece`] as plain mathematical data.
pub enum PieceView {
    Parsed(nat),
    Html(Seq<char>),
}

impl View for Piece {
    type V = PieceView;

    open spec fn view(&self) -> PieceView {
        match self {
            Piece::Parsed(index) => PieceView::Parsed(*index as nat),
            Piece::Html(html) => PieceView::Html(html@),
        }
    }
}

/// Where the rewrite stands in the event stream.
#[derive(Debug, Clone, PartialEq, Eq)]
pub enum HeadingState {
    /// Not inside a heading that is being rewritten.
    Outside,
    /// Inside such a heading, with the text gathered so far.
    InHeading { level: u8, text: String },
}

/// A [`HeadingState`] as plain mathematical data.
pub enum HeadingStateView {
    Outside,
    InHeading { level: u8, text: Seq<char> },
}

impl View for HeadingState {
    type V = HeadingStateView;

    open spec fn view(&self) -> HeadingStateView {
        match self {
            HeadingState::Outside => HeadingStateView::Outside,
            HeadingState::InHeading { level, text } => HeadingStateView::InHeading {
                level: *level,
                text: text@,
            },
        }
    }
}

/// The views of a sequence of events.
pub open spec fn events_view(events: Seq<MarkdownEvent>) -> Seq<MarkdownEventView> {
    events.map_values(|e: MarkdownEvent| e@)
}

/// The views of a sequence of pieces.
pub open spec fn pieces_view(pieces: Seq<Piece>) -> Seq<PieceView> {
    pieces.map_values(|p: Piece| p@)
}

/// The events that the markdown parser, with no extension switched on, makes
/// of `body`, each reduced to what [`MarkdownEvent`] holds.
pub uninterp spec fn markdown_events(body: Seq<char>) -> Seq<MarkdownEventView>;

/// The HTML that the writer produces when it is fed, in order, one event for
/// each of `pieces`: for `Parsed(i)` the `i`-th event that the parser makes
/// of `body`, for `Html(h)` a raw HTML event holding `h`.
pub uninterp spec fn written_html(body: Seq<char>, pieces: Seq<PieceView>) -> Seq<char>;


/// The headings that the table-of-contents reader finds in `body`, in
/// document order, each as its depth and its text.
pub uninterp spec fn toc_headings(body: Seq<char>) -> Seq<(usize, Seq<char>)>;

/// Whether every `Parsed` piece points at an event that exists.
pub open spec fn pieces_in_range(pieces: Seq<PieceView>, events: nat) -> bool {
    forall|i: int|
        0 <= i < pieces.len() ==> (#[trigger] pieces[i] matches PieceView::Parsed(index)
            ==> index < events)
}

/// Runs `Parser::new_ext` of `pulldown-cmark` with empty options over `body`
/// and tells the events apart: a heading's start and end keep their depth
/// (`H1` is 1, up to `H6`), a text event keeps its text, all others are
/// `Other`.
#[verifier::external_body]
fn parse_events(body: &str) -> (events: Vec<MarkdownEvent>)
    ensures
        events_view(events@) == markdown_events(body@),
{
    Parser::new_ext(body, Options::empty()).map(
        |event| match event {
            Event::Start(Tag::Heading { level, .. }) => MarkdownEvent::HeadingStart(level as u8),
            Event::End(TagEnd::Heading(level)) => MarkdownEvent::HeadingEnd(level as u8),
            Event::Text(text) => MarkdownEvent::Text(text.to_string()),
            _ => MarkdownEvent::Other,
        },
    ).collect()
}

/// Parses `body` as [`parse_events`] does, makes one event of each piece (the
/// parser's own event for `Parsed`, `Event::Html` for `Html`) and hands them
/// to `pulldown_cmark::html::push_html`.
#[verifier::external_body]
fn write_html(body: &str, pieces: &Vec<Piece>) -> (html: String)
    requires
        pieces_in_range(pieces_view(pieces@), markdown_events(body@).len()),
    ensures
        html@ == written_html(body@, pieces_view(pieces@)),
{
    let events: Vec<Event> = Parser::new_ext(body, Options::empty()).collect();
    let stream = pieces.iter().map(
        |piece| match piece {
            Piece::Parsed(index) => events[*index].clone(),
            Piece::Html(html) => Event::Html(CowStr::from(html.clone())),
        },
    );
    let mut html = String::new();
    pulldown_cmark::html::push_html(&mut html, stream);
    html
}

/// `pulldown_cmark::html::push_html` over `Parser::new(body)`, which is the
/// parser with no extension switched on: the writer is fed every event of
/// `body` as the parser gives it.
#[verifier::external_body]
fn write_plain_html(body: &str) -> (html: String)
    ensures
        html@ == plain_html(body@),
{
    let mut html = String::new();
    pulldown_cmark::html::push_html(&mut html, Parser::new(body));
    html
}

/// `TableOfContents::new` of `pulldown-cmark-toc` over `body`; of each of its
/// `headings`, the `level` as a number and the `text`.
#[verifier::external_body]
fn read_toc(body: &str) -> (headings: Vec<(usize, String)>)
    ensures
        headings@.map_values(|h: (usize, String)| (h.0, h.1@)) == toc_headings(body@),
{
    TableOfContents::new(body).headings().map(|h| (h.level() as usize, h.text())).collect()
}

/// Whether a heading of this depth gets an anchor.
pub open spec fn is_anchored(level: u8) -> bool {
    2 <= level <= 4
}

/// The literal HTML for a heading of depth `level` with the text `text`: the
/// opening tag with the anchor id, the text as it is, the closing tag.
pub open spec fn heading_markup(level: u8, text: Seq<char>) -> Seq<char> {
    "<h"@ + decimal(level as nat) + " id=\""@ + anchor_of(text) + "\">"@ + text + "</h"@ + decimal(
        level as nat,
    ) + ">"@
}

/// One step of the rewrite: the state after `event`, which stands at position
/// `index` of the stream, and the piece to emit for it, if any.
pub open spec fn step(state: HeadingStateView, index: nat, event: MarkdownEventView) -> (
    HeadingStateView,
    Option<PieceView>,
) {
    match (event, state) {
        (MarkdownEventView::HeadingStart(level), _) if is_anchored(level) => (
            HeadingStateView::InHeading { level, text: Seq::empty() },
            None,
        ),
        (MarkdownEventView::Text(more), HeadingStateView::InHeading { level, text }) => (
            HeadingStateView::InHeading { level, text: text + more },
            None,
        ),
        (MarkdownEventView::HeadingEnd(closing), HeadingStateView::InHeading { level, text })
            if closing == level => (
            HeadingStateView::Outside,
            Some(PieceView::Html(heading_markup(level, text))),
        ),
        _ => (state, Some(PieceView::Parsed(index))),
    }
}

/// The state after all of `events`, starting outside any heading.
pub open spec fn state_after(events: Seq<MarkdownEventView>) -> HeadingStateView
    decreases events.len(),
{
    if events.len() == 0 {
        HeadingStateView::Outside
    } else {
        step(
            state_after(events.drop_last()),
            (events.len() - 1) as nat,
            events.last(),
        ).0
    }
}

/// The pieces emitted for `events`, in order.
pub open spec fn rewritten(events: Seq<MarkdownEventView>) -> Seq<PieceView>
    decreases events.len(),
{
    if events.len() == 0 {
        Seq::empty()
    } else {
        let front = rewritten(events.drop_last());
        match step(
            state_after(events.drop_last()),
            (events.len() - 1) as nat,
            events.last(),
        ).1 {
            Some(piece) => front.push(piece),
            None => front,
        }
    }
}

/// The pieces that hand every one of `count` events through unchanged.
pub open spec fn all_parsed(count: nat) -> Seq<PieceView> {
    Seq::new(count, |i: int| PieceView::Parsed(i as nat))
}

/// The HTML that the writer produces for the unchanged events of `body`.
pub open spec fn plain_html(body: Seq<char>) -> Seq<char> {
    written_html(body, all_parsed(markdown_events(body).len()))
}

/// Whether `events` opens no heading of a depth that gets an anchor.
pub open spec fn no_anchored_heading(events: Seq<MarkdownEventView>) -> bool {
    forall|i: int|
        0 <= i < events.len() ==> (#[trigger] events[i] matches MarkdownEventView::HeadingStart(
            level,
        ) ==> !is_anchored(level))
}

/// The literal HTML for a heading.
pub fn heading_html(level: u8, text: &str) -> (html: String)
    ensures
        html@ == heading_markup(level, text@),
{
    let id = anchor_id(text);
    let mut html = String::new();
    html.append("<h");
    append_decimal(&mut html, level as u64);
    html.append(" id=\"");
    html.append(id.as_str());
    html.append("\">");
    html.append(text);
    html.append("</h");
    append_decimal(&mut html, level as u64);
    html.append(">");
    proof {
        assert(html@ =~= heading_markup(level, text@));
    }
    html
}

/// One step of the heading rewrite.
pub fn heading_step(state: HeadingState, index: usize, event: &MarkdownEvent) -> (next: (
    HeadingState,
    Option<Piece>,
))
    ensures
        next.0@ == step(state@, index as nat, event@).0,
        match next.1 {
            Some(piece) => step(state@, index as nat, event@).1 == Some(piece@),
            None => step(state@, index as nat, event@).1 is None,
        },
{
    match event {
        MarkdownEvent::HeadingStart(level) => {
            if 2 <= *level && *level <= 4 {
                return (HeadingState::InHeading { level: *level, text: String::new() }, None);
            }
        },
        MarkdownEvent::Text(more) => {
            if let HeadingState::InHeading { level, text } = state {
                let mut text = text;
                text.append(more.as_str());
                return (HeadingState::InHeading { level, text }, None);
            }
        },
        MarkdownEvent::HeadingEnd(closing) => {
            if let HeadingState::InHeading { level, text } = &state {
                if *closing == *level {
                    let html = heading_html(*level, text.as_str());
                    return (HeadingState::Outside, Some(Piece::Html(html)));
                }
            }
        },
        MarkdownEvent::Other => {},
    }
    (state, Some(Piece::Parsed(index)))
}

/// Rewrites a whole event stream in one pass.
pub fn rewrite_headings(events: &Vec<MarkdownEvent>) -> (pieces: Vec<Piece>)
    ensures
        pieces_view(pieces@) == rewritten(events_view(events@)),
        pieces_in_range(pieces_view(pieces@), events.len() as nat),
{
    let mut pieces: Vec<Piece> = Vec::new();
    let mut state = HeadingState::Outside;
    let mut i: usize = 0;
    while i < events.len()
        invariant
            i <= events.len(),
            state@ == state_after(events_view(events@).take(i as int)),
            pieces_view(pieces@) == rewritten(events_view(events@).take(i as int)),
            pieces_in_range(pieces_view(pieces@), i as nat),
        decreases events.len() - i,
    {
        let ghost all = events_view(events@);
        proof {
            assert(all.take(i + 1).drop_last() == all.take(i as int));
            assert(all.take(i + 1).last() == events@[i as int]@);
        }
        let (next, piece) = heading_step(state, i, &events[i]);
        state = next;
        match piece {
            Some(piece) => {
                let ghost before = pieces@;
                proof {
                    assert(pieces_view(before.push(piece)) =~= pieces_view(before).push(piece@));
                }
                pieces.push(piece);
            },
            None => {},
        }
        i += 1;
    }
    proof {
        let all = events_view(events@);
        assert(all.take(events.len() as int) == all);
    }
    pieces
}

/// A stream that opens no heading of depth 2, 3 or 4 is handed to the writer
/// unchanged: the rewrite never leaves the outside state and emits every
/// event as the parser gave it, in order.
pub proof fn lemma_unanchored_stream_is_unchanged(events: Seq<MarkdownEventView>)
    requires
        no_anchored_heading(events),
    ensures
        state_after(events) == HeadingStateView::Outside,
        rewritten(events) == all_parsed(events.len()),
    decreases events.len(),
{
    if events.len() > 0 {
        let front = events.drop_last();
        assert forall|i: int| 0 <= i < front.len() implies (#[trigger] front[i]
            matches MarkdownEventView::HeadingStart(level) ==> !is_anchored(level)) by {
            assert(front[i] == events[i]);
        }
        lemma_unanchored_stream_is_unchanged(front);
        assert(events.last() == events[events.len() - 1]);
        assert(rewritten(events) =~= all_parsed(events.len()));
    } else {
        assert(rewritten(events) =~= all_parsed(0));
    }
}

/// A body without a heading of depth 2, 3 or 4 renders as it does with
/// nothing rewritten.
pub proof fn lemma_unanchored_body_renders_plainly(body: Seq<char>)
    requires
        no_anchored_heading(markdown_events(body)),
    ensures
        written_html(body, rewritten(markdown_events(body))) == plain_html(body),
{
    lemma_unanchored_stream_is_unchanged(markdown_events(body));
}

/// The body rendered to HTML, every heading of depth 2, 3 or 4 replaced by a
/// literal heading that carries its anchor id.
pub fn render_html(body: &str) -> (html: String)
    ensures
        html@ == written_html(body@, rewritten(markdown_events(body@))),
{
    let events = parse_events(body);
    let pieces = rewrite_headings(&events);
    write_html(body, &pieces)
}

/// The body rendered to HTML with nothing rewritten.
pub fn render_plain_html(body: &str) -> (html: String)
    ensures
        html@ == plain_html(body@),
{
    write_plain_html(body)
}

/// The outline entry for a heading of the given depth and text.
pub open spec fn outline_entry(heading: (usize, Seq<char>)) -> (usize, Seq<char>, Seq<char>) {
    (heading.0, heading.1, anchor_of(heading.1))
}

/// The view of an outline.
pub open spec fn outline_view(outline: Seq<(usize, String, String)>) -> Seq<
    (usize, Seq<char>, Seq<char>),
> {
    outline.map_values(|e: (usize, String, String)| (e.0, e.1@, e.2@))
}

/// Adds to each heading the anchor id made of its text.
pub fn outline_of(headings: Vec<(usize, String)>) -> (outline: Vec<(usize, String, String)>)
    ensures
        outline_view(outline@) == headings@.map_values(
            |h: (usize, String)| outline_entry((h.0, h.1@)),
        ),
{
    let mut outline: Vec<(usize, String, String)> = Vec::new();
    let ghost all = headings@;
    let mut i: usize = 0;
    while i < headings.len()
        invariant
            i <= headings.len(),
            headings@ == all,
            outline_view(outline@) == all.take(i as int).map_values(
                |h: (usize, String)| outline_entry((h.0, h.1@)),
            ),
        decreases headings.len() - i,
    {
        let level = headings[i].0;
        let text = headings[i].1.clone();
        let id = anchor_id(text.as_str());
        let ghost before = outline@;
        let entry = (level, text, id);
        proof {
            assert(all.take(i + 1) == all.take(i as int).push(all[i as int]));
            assert(outline_view(before.push(entry)) =~= outline_view(before).push(
                (entry.0, entry.1@, entry.2@),
            ));
            assert(all.take(i + 1).map_values(|h: (usize, String)| outline_entry((h.0, h.1@)))
                =~= all.take(i as int).map_values(
                |h: (usize, String)| outline_entry((h.0, h.1@)),
            ).push(outline_entry((all[i as int].0, all[i as int].1@))));
        }
        outline.push(entry);
        i += 1;
    }
    proof {
        assert(all.take(headings.len() as int) == all);
    }
    outline
}

/// The outline of `body`: every heading, of any depth, in document order,
/// with its depth, its text and its anchor id.
pub fn render_outline(body: &str) -> (outline: Vec<(usize, String, String)>)
    ensures
        outline_view(outline@) == toc_headings(body@).map_values(
            |h: (usize, Seq<char>)| outline_entry(h),
        ),
{
    let headings = read_toc(body);
    let outline = outline_of(headings);
    proof {
        let plain = headings@.map_values(|h: (usize, String)| (h.0, h.1@));
        assert(headings@.map_values(|h: (usize, String)| outline_entry((h.0, h.1@)))
            =~= plain.map_values(|h: (usize, Seq<char>)| outline_entry(h)));
    }
    outline
}

} // verus!
