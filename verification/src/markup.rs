//! Markup rendered as styled lines.
//!
//! A text in Markdown is read as a stream of events: blocks and spans that
//! open and close, runs of text, line breaks. One pass over the stream
//! builds the lines to show, each a row of spans with a style of their own.

use crate::text::{repeated, string_of};
use pulldown_cmark::{Event, Parser, Tag};
use vstd::prelude::*;

verus! {

/// A colour of the terminal's palette.
#[derive(Clone, Copy, Debug, PartialEq, Eq)]
pub enum Tint {
    Black,
    Green,
    Yellow,
    Cyan,
}

/// How a span is drawn: colours, where set, and weight and slant.
#[derive(Clone, Copy, Debug, PartialEq, Eq)]
pub struct TextStyle {
    pub fg: Option<Tint>,
    pub bg: Option<Tint>,
    pub bold: bool,
    pub italic: bool,
}

/// The style that sets nothing.
pub open spec fn plain_style() -> TextStyle {
    TextStyle { fg: None, bg: None, bold: false, italic: false }
}

/// The style of the marker that opens a heading.
pub open spec fn heading_style() -> TextStyle {
    TextStyle { fg: Some(Tint::Yellow), bg: None, bold: true, italic: false }
}

/// The style of the header above each message of the transcript.
pub open spec fn header_style() -> TextStyle {
    TextStyle { fg: Some(Tint::Green), bg: None, bold: false, italic: false }
}

/// The style of a run of text: the colours of code inside a code block,
/// and the weight and slant of the spans that are open around it.
pub open spec fn run_style(in_code: bool, bold: bool, italic: bool) -> TextStyle {
    if in_code {
        TextStyle { fg: Some(Tint::Cyan), bg: Some(Tint::Black), bold, italic }
    } else {
        TextStyle { fg: None, bg: None, bold, italic }
    }
}

impl TextStyle {
    /// The style that sets nothing.
    pub fn plain() -> (style: TextStyle)
        ensures
            style == plain_style(),
    {
        TextStyle { fg: None, bg: None, bold: false, italic: false }
    }

    /// The style of the marker that opens a heading.
    pub fn heading() -> (style: TextStyle)
        ensures
            style == heading_style(),
    {
        TextStyle { fg: Some(Tint::Yellow), bg: None, bold: true, italic: false }
    }

    /// The style of the header above each message of the transcript.
    pub fn header() -> (style: TextStyle)
        ensures
            style == header_style(),
    {
        TextStyle { fg: Some(Tint::Green), bg: None, bold: false, italic: false }
    }

    /// The style of a run of text.
    pub fn run(in_code: bool, bold: bool, italic: bool) -> (style: TextStyle)
        ensures
            style == run_style(in_code, bold, italic),
    {
        if in_code {
            TextStyle { fg: Some(Tint::Cyan), bg: Some(Tint::Black), bold, italic }
        } else {
            TextStyle { fg: None, bg: None, bold, italic }
        }
    }
}

/// A run of characters drawn in one style.
#[derive(Clone, Debug, PartialEq, Eq)]
pub struct StyledSpan {
    pub text: String,
    pub style: TextStyle,
}

/// What a span holds: its characters and its style.
pub ghost struct SpanView {
    pub text: Seq<char>,
    pub style: TextStyle,
}

impl View for StyledSpan {
    type V = SpanView;

    open spec fn view(&self) -> SpanView {
        SpanView { text: self.text@, style: self.style }
    }
}

/// One line of the display: spans from left to right.
#[derive(Clone, Debug, PartialEq, Eq)]
pub struct StyledLine {
    pub spans: Vec<StyledSpan>,
}

/// What each span of `spans` holds.
pub open spec fn span_views(spans: Seq<StyledSpan>) -> Seq<SpanView> {
    Seq::new(spans.len(), |i: int| spans[i]@)
}

impl View for StyledLine {
    type V = Seq<SpanView>;

    open spec fn view(&self) -> Seq<SpanView> {
        span_views(self.spans@)
    }
}

/// What each line of `lines` holds.
pub open spec fn line_views(lines: Seq<StyledLine>) -> Seq<Seq<SpanView>> {
    Seq::new(lines.len(), |i: int| lines[i]@)
}

/// A block or a span of the markup.
#[derive(Clone, Copy, Debug, PartialEq, Eq)]
pub enum MarkupTag {
    /// A heading, with its level.
    Heading(u8),
    CodeBlock,
    List,
    Item,
    Emphasis,
    Strong,
    /// Any block or span that the renderer does not draw.
    Other,
}

/// One event of the stream that a text in Markdown is read as.
#[derive(Clone, Debug, PartialEq, Eq)]
pub enum MarkupEvent {
    Start(MarkupTag),
    End(MarkupTag),
    Text(String),
    SoftBreak,
    HardBreak,
    /// Any event that the renderer does not draw.
    Other,
}

/// What an event holds.
pub ghost enum EventView {
    Start(MarkupTag),
    End(MarkupTag),
    Text(Seq<char>),
    SoftBreak,
    HardBreak,
    Other,
}

impl View for MarkupEvent {
    type V = EventView;

    open spec fn view(&self) -> EventView {
        match self {
            MarkupEvent::Start(tag) => EventView::Start(*tag),
            MarkupEvent::End(tag) => EventView::End(*tag),
            MarkupEvent::Text(run) => EventView::Text(run@),
            MarkupEvent::SoftBreak => EventView::SoftBreak,
            MarkupEvent::HardBreak => EventView::HardBreak,
            MarkupEvent::Other => EventView::Other,
        }
    }
}

/// What each event of `events` holds.
pub open spec fn event_views(events: Seq<MarkupEvent>) -> Seq<EventView> {
    Seq::new(events.len(), |i: int| events[i]@)
}

/// The events that `pulldown_cmark::Parser::new` reads `text` as.
pub uninterp spec fn markup_events(text: Seq<char>) -> Seq<EventView>;

/// `pulldown_cmark::Parser::new` on `text`, walked to its end. Each event
/// of the parser becomes the event of this library with the same name, a
/// tag likewise; of a heading the level is kept, of a run of text its
/// characters. The result is named, not described: the same text is read
/// as the same events.
#[verifier::external_body]
pub(crate) fn parse_markup(text: &str) -> (events: Vec<MarkupEvent>)
    ensures
        event_views(events@) == markup_events(text@),
{
    let kind = |tag: Tag| match tag {
        Tag::Heading(level, ..) => MarkupTag::Heading(level as u8),
        Tag::CodeBlock(_) => MarkupTag::CodeBlock,
        Tag::List(_) => MarkupTag::List,
        Tag::Item => MarkupTag::Item,
        Tag::Emphasis => MarkupTag::Emphasis, Tag::Strong => MarkupTag::Strong,
        _ => MarkupTag::Other,
    };
    Parser::new(text).map(|event| match event {
        Event::Start(tag) => MarkupEvent::Start(kind(tag)),
        Event::End(tag) => MarkupEvent::End(kind(tag)),
        Event::Text(run) => MarkupEvent::Text(run.to_string()),
        Event::SoftBreak => MarkupEvent::SoftBreak, Event::HardBreak => MarkupEvent::HardBreak,
        _ => MarkupEvent::Other,
    }).collect()
}

/// The marker that opens a heading: a number sign for each level, then a
/// space.
pub open spec fn heading_marker(level: u8) -> Seq<char> {
    repeated('#', level as nat).push(' ')
}

/// The marker that opens an item of a list `depth` lists deep: two spaces
/// for each list around the innermost, a bullet and a space.
pub open spec fn item_marker(depth: nat) -> Seq<char> {
    if depth >= 1 {
        repeated(' ', (2 * (depth - 1)) as nat) + seq!['\u{2022}', ' ']
    } else {
        seq!['\u{2022}', ' ']
    }
}

/// What the renderer has drawn and what it remembers while it reads a
/// stream of events.
pub ghost struct Canvas {
    /// The lines that are done.
    pub lines: Seq<Seq<SpanView>>,
    /// The line that is being built.
    pub line: Seq<SpanView>,
    /// Whether a code block is open.
    pub in_code: bool,
    /// How many lists are open.
    pub depth: nat,
    /// Whether a strong span is open.
    pub bold: bool,
    /// Whether an emphasis span is open.
    pub italic: bool,
}

impl Canvas {
    /// The canvas before the first event.
    pub open spec fn blank() -> Canvas {
        Canvas {
            lines: Seq::empty(),
            line: Seq::empty(),
            in_code: false,
            depth: 0,
            bold: false,
            italic: false,
        }
    }

    /// The canvas with the line that is being built moved to the lines
    /// that are done, where it holds a span.
    pub open spec fn flushed(self) -> Canvas {
        if self.line.len() > 0 {
            Canvas { lines: self.lines.push(self.line), line: Seq::empty(), ..self }
        } else {
            self
        }
    }

    /// The canvas with a span added to the line that is being built.
    pub open spec fn with_span(self, text: Seq<char>, style: TextStyle) -> Canvas {
        Canvas { line: self.line.push(SpanView { text, style }), ..self }
    }

    /// The canvas after one more event.
    ///
    /// A heading, a code block and an item begin a new line; so does the
    /// end of a code block and of any block but a list, and a line break. A
    /// heading and an item put their marker first. Emphasis and strong
    /// leave an empty span in their style and hold for the runs of text
    /// that follow, up to their end, which breaks no line.
    pub open spec fn step(self, event: EventView) -> Canvas {
        match event {
            EventView::Start(MarkupTag::Heading(level)) => self.flushed().with_span(
                heading_marker(level),
                heading_style(),
            ),
            EventView::Start(MarkupTag::CodeBlock) => Canvas { in_code: true, ..self.flushed() },
            EventView::End(MarkupTag::CodeBlock) => Canvas { in_code: false, ..self.flushed() },
            EventView::Start(MarkupTag::List) => Canvas { depth: self.depth + 1, ..self },
            EventView::End(MarkupTag::List) => Canvas {
                depth: if self.depth > 0 {
                    (self.depth - 1) as nat
                } else {
                    0
                },
                ..self
            },
            EventView::Start(MarkupTag::Item) => self.flushed().with_span(
                item_marker(self.depth),
                plain_style(),
            ),
            EventView::Start(MarkupTag::Emphasis) => Canvas {
                italic: true,
                ..self.with_span(Seq::empty(), run_style(false, false, true))
            },
            EventView::Start(MarkupTag::Strong) => Canvas {
                bold: true,
                ..self.with_span(Seq::empty(), run_style(false, true, false))
            },
            EventView::Text(run) => self.with_span(
                run,
                run_style(self.in_code, self.bold, self.italic),
            ),
            EventView::End(MarkupTag::Emphasis) => Canvas { italic: false, ..self },
            EventView::End(MarkupTag::Strong) => Canvas { bold: false, ..self },
            EventView::End(_) => self.flushed(),
            EventView::SoftBreak => self.flushed(),
            EventView::HardBreak => self.flushed(),
            EventView::Start(MarkupTag::Other) => self,
            EventView::Other => self,
        }
    }

    /// The canvas after the events of `events`, in order.
    pub open spec fn run(events: Seq<EventView>) -> Canvas
        decreases events.len(),
    {
        if events.len() == 0 {
            Canvas::blank()
        } else {
            Canvas::run(events.drop_last()).step(events.last())
        }
    }
}

/// The lines that a stream of events is drawn as.
pub open spec fn rendered(events: Seq<EventView>) -> Seq<Seq<SpanView>> {
    Canvas::run(events).flushed().lines
}

/// The end of an emphasis or strong span breaks no line: the lines that
/// are done and the line that is being built stay as they are.
pub proof fn lemma_span_end_breaks_no_line(canvas: Canvas, tag: MarkupTag)
    requires
        tag == MarkupTag::Emphasis || tag == MarkupTag::Strong,
    ensures
        canvas.step(EventView::End(tag)).lines == canvas.lines,
        canvas.step(EventView::End(tag)).line == canvas.line,
{
}

/// Adding a span to a row adds what the span holds to what the row holds.
pub proof fn lemma_span_views_push(spans: Seq<StyledSpan>, span: StyledSpan)
    ensures
        span_views(spans.push(span)) == span_views(spans).push(span@),
{
    assert(span_views(spans.push(span)) =~= span_views(spans).push(span@));
}

/// Adding a line to a list of lines adds what the line holds to what the
/// list holds.
pub proof fn lemma_line_views_push(lines: Seq<StyledLine>, line: StyledLine)
    ensures
        line_views(lines.push(line)) == line_views(lines).push(line@),
{
    assert(line_views(lines.push(line)) =~= line_views(lines).push(line@));
}

/// A vector of `n` times the character `c`.
pub fn repeat_char(c: char, n: usize) -> (v: Vec<char>)
    ensures
        v@ == repeated(c, n as nat),
{
    let mut v: Vec<char> = Vec::new();
    let mut i: usize = 0;
    while i < n
        invariant
            i <= n,
            v@ == repeated(c, i as nat),
        decreases n - i,
    {
        v.push(c);
        assert(v@ =~= repeated(c, (i + 1) as nat));
        i += 1;
    }
    v
}

/// The marker that opens a heading of the given level.
fn heading_text(level: u8) -> (text: String)
    ensures
        text@ == heading_marker(level),
{
    let mut marker = repeat_char('#', level as usize);
    marker.push(' ');
    string_of(&marker)
}

/// The marker that opens an item of a list `depth` lists deep.
fn item_text(depth: usize) -> (text: String)
    ensures
        text@ == item_marker(depth as nat),
{
    let mut marker: Vec<char> = Vec::new();
    let mut i: usize = 1;
    assert(marker@ =~= repeated(' ', 0));
    while i < depth
        invariant
            1 <= i,
            depth >= 1 ==> i <= depth,
            depth == 0 ==> i == 1,
            marker@ == repeated(' ', (2 * (i - 1)) as nat),
        decreases depth - i,
    {
        marker.push(' ');
        marker.push(' ');
        assert(marker@ =~= repeated(' ', (2 * i) as nat));
        i += 1;
    }
    marker.push('\u{2022}');
    marker.push(' ');
    proof {
        if depth >= 1 {
            assert(marker@ =~= repeated(' ', (2 * (depth - 1)) as nat) + seq!['\u{2022}', ' ']);
        } else {
            assert(marker@ =~= seq!['\u{2022}', ' ']);
        }
    }
    string_of(&marker)
}

/// Moves the line that is being built to the lines that are done, where it
/// holds a span.
fn flush_line(lines: &mut Vec<StyledLine>, line: &mut Vec<StyledSpan>)
    ensures
        old(line)@.len() > 0 ==> line_views(final(lines)@) == line_views(old(lines)@).push(
            span_views(old(line)@),
        ) && final(line)@.len() == 0,
        old(line)@.len() == 0 ==> final(lines)@ == old(lines)@ && final(line)@ == old(line)@,
{
    if line.len() > 0 {
        let mut spans: Vec<StyledSpan> = Vec::new();
        core::mem::swap(&mut spans, line);
        let done = StyledLine { spans };
        proof {
            lemma_line_views_push(lines@, done);
        }
        lines.push(done);
    }
}

/// Draws a stream of markup events as styled lines.
///
/// A heading, a code block and a list item begin a new line, as do the end
/// of a code block, the end of any block but a list, and a line break; a
/// heading puts a number sign for each level first, an item its indent and
/// a bullet. Text inside a code block is drawn in the colours of code.
/// Emphasis and strong leave an empty span in their style, hold for the
/// text that follows up to their end, and break no line. Every other event
/// is passed over.
pub fn render_events(events: &Vec<MarkupEvent>) -> (lines: Vec<StyledLine>)
    ensures
        line_views(lines@) == rendered(event_views(events@)),
{
    let mut lines: Vec<StyledLine> = Vec::new();
    let mut line: Vec<StyledSpan> = Vec::new();
    let ghost seen = event_views(events@);
    let mut in_code = false;
    let mut depth: usize = 0;
    let mut bold = false;
    let mut italic = false;
    let mut i: usize = 0;
    proof {
        assert(seen.take(0) =~= Seq::<EventView>::empty());
        assert(line_views(lines@) =~= Seq::<Seq<SpanView>>::empty());
        assert(span_views(line@) =~= Seq::<SpanView>::empty());
    }
    while i < events.len()
        invariant
            i <= events.len(),
            depth <= i,
            seen == event_views(events@),
            Canvas::run(seen.take(i as int)) == (Canvas {
                lines: line_views(lines@),
                line: span_views(line@),
                in_code,
                depth: depth as nat,
                bold,
                italic,
            }),
        decreases events.len() - i,
    {
        let ghost before = Canvas::run(seen.take(i as int));
        proof {
            assert(seen.take(i + 1).drop_last() =~= seen.take(i as int));
            assert(seen.take(i + 1).last() == events@[i as int]@);
            assert(Canvas::run(seen.take(i + 1)) == before.step(events@[i as int]@));
            assert(span_views(Seq::<StyledSpan>::empty()) =~= Seq::<SpanView>::empty());
        }
        match &events[i] {
            MarkupEvent::Start(MarkupTag::Heading(level)) => {
                flush_line(&mut lines, &mut line);
                let span = StyledSpan { text: heading_text(*level), style: TextStyle::heading() };
                proof {
                    lemma_span_views_push(line@, span);
                    assert(span_views(line@) =~= before.flushed().line);
                }
                line.push(span);
            },
            MarkupEvent::Start(MarkupTag::CodeBlock) => {
                flush_line(&mut lines, &mut line);
                assert(span_views(line@) =~= before.flushed().line);
                in_code = true;
            },
            MarkupEvent::End(MarkupTag::CodeBlock) => {
                flush_line(&mut lines, &mut line);
                assert(span_views(line@) =~= before.flushed().line);
                in_code = false;
            },
            MarkupEvent::Start(MarkupTag::List) => {
                depth = depth + 1;
            },
            MarkupEvent::End(MarkupTag::List) => {
                if depth > 0 {
                    depth = depth - 1;
                }
            },
            MarkupEvent::Start(MarkupTag::Item) => {
                flush_line(&mut lines, &mut line);
                let span = StyledSpan { text: item_text(depth), style: TextStyle::plain() };
                proof {
                    lemma_span_views_push(line@, span);
                    assert(span_views(line@) =~= before.flushed().line);
                }
                line.push(span);
            },
            MarkupEvent::Start(MarkupTag::Emphasis) => {
                let span = StyledSpan {
                    text: String::new(),
                    style: TextStyle::run(false, false, true),
                };
                proof {
                    lemma_span_views_push(line@, span);
                }
                line.push(span);
                italic = true;
            },
            MarkupEvent::Start(MarkupTag::Strong) => {
                let span = StyledSpan {
                    text: String::new(),
                    style: TextStyle::run(false, true, false),
                };
                proof {
                    lemma_span_views_push(line@, span);
                }
                line.push(span);
                bold = true;
            },
            MarkupEvent::Text(run) => {
                let span = StyledSpan {
                    text: run.clone(),
                    style: TextStyle::run(in_code, bold, italic),
                };
                proof {
                    lemma_span_views_push(line@, span);
                }
                line.push(span);
            },
            MarkupEvent::End(MarkupTag::Emphasis) => {
                italic = false;
            },
            MarkupEvent::End(MarkupTag::Strong) => {
                bold = false;
            },
            MarkupEvent::End(_) => {
                flush_line(&mut lines, &mut line);
                assert(span_views(line@) =~= before.flushed().line);
            },
            MarkupEvent::SoftBreak => {
                flush_line(&mut lines, &mut line);
                assert(span_views(line@) =~= before.flushed().line);
            },
            MarkupEvent::HardBreak => {
                flush_line(&mut lines, &mut line);
                assert(span_views(line@) =~= before.flushed().line);
            },
            MarkupEvent::Start(MarkupTag::Other) => {},
            MarkupEvent::Other => {},
        }
        i += 1;
    }
    proof {
        assert(seen.take(events.len() as int) =~= seen);
        assert(span_views(Seq::<StyledSpan>::empty()) =~= Seq::<SpanView>::empty());
    }
    flush_line(&mut lines, &mut line);
    lines
}

/// Reads `markdown` as markup and draws it as styled lines.
pub fn markdown_to_styled_text(markdown: &str) -> (lines: Vec<StyledLine>)
    ensures
        line_views(lines@) == rendered(markup_events(markdown@)),
{
    let events = parse_markup(markdown);
    render_events(&events)
}

} // verus!
