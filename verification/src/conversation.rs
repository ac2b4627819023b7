//! The conversation: its messages in the order in which they arrived.
//!
//! While a request is under way the log ends in a placeholder, a message of
//! the system that says so. The next message that arrives, of whatever
//! kind, takes its place.

use crate::layout::{count_lines, line_count, wrap_rows, wrapped};
use crate::markup::{
    event_views, header_style, lemma_line_views_push, lemma_span_views_push, line_views,
    markup_events, parse_markup, plain_style, render_events, rendered, span_views, EventView,
    MarkupEvent, SpanView, StyledLine, StyledSpan, TextStyle,
};
use crate::text::{chars_of, push_all, repeated, same_text, string_of, utf8_len, utf8_len_of};
use vstd::prelude::*;

verus! {

/// Who a message is from.
#[derive(Clone, Copy, Debug, PartialEq, Eq, Structural)]
pub enum Role {
    User,
    Assistant,
    System,
}

/// One entry of the conversation.
#[derive(Debug, PartialEq, Eq)]
pub struct Message {
    pub role: Role,
    pub content: String,
    /// The time of day at which the message was made, as it is shown.
    pub timestamp: String,
}

/// What a message holds.
pub ghost struct MessageView {
    pub role: Role,
    pub content: Seq<char>,
    pub timestamp: Seq<char>,
}

impl View for Message {
    type V = MessageView;

    open spec fn view(&self) -> MessageView {
        MessageView { role: self.role, content: self.content@, timestamp: self.timestamp@ }
    }
}

impl Clone for Message {
    fn clone(&self) -> (copy: Message)
        ensures
            copy@ == self@,
    {
        Message {
            role: self.role,
            content: self.content.clone(),
            timestamp: self.timestamp.clone(),
        }
    }
}

/// What each message of `log` holds.
pub open spec fn message_views(log: Seq<Message>) -> Seq<MessageView> {
    Seq::new(log.len(), |i: int| log[i]@)
}

/// The content of the placeholder that stands for a reply under way.
pub open spec fn pending_text() -> Seq<char> {
    "正在等待响应..."@
}

/// Whether `message` is the placeholder: a message of the system with the
/// placeholder's content.
pub open spec fn is_pending(message: MessageView) -> bool {
    message.role == Role::System && message.content == pending_text()
}

/// The log after `message` arrived: it takes the place of a placeholder at
/// the end, and is added at the end where there is none.
pub open spec fn appended(log: Seq<MessageView>, message: MessageView) -> Seq<MessageView> {
    if log.len() > 0 && is_pending(log.last()) {
        log.drop_last().push(message)
    } else {
        log.push(message)
    }
}

/// Whether no entry of `log` but the last is a placeholder.
pub open spec fn settled(log: Seq<MessageView>) -> bool {
    forall|i: int| 0 <= i < log.len() - 1 ==> !is_pending(#[trigger] log[i])
}

/// The content of the last message of the assistant in `log`.
pub open spec fn last_assistant(log: Seq<MessageView>) -> Option<Seq<char>>
    decreases log.len(),
{
    if log.len() == 0 {
        None
    } else if log.last().role == Role::Assistant {
        Some(log.last().content)
    } else {
        last_assistant(log.drop_last())
    }
}

impl Message {
    /// A message of the given role.
    pub fn new(role: Role, content: String, timestamp: String) -> (message: Message)
        ensures
            message@ == (MessageView { role, content: content@, timestamp: timestamp@ }),
    {
        Message { role, content, timestamp }
    }

    /// The placeholder that stands for a reply under way.
    pub fn pending(timestamp: String) -> (message: Message)
        ensures
            message@ == (MessageView {
                role: Role::System,
                content: pending_text(),
                timestamp: timestamp@,
            }),
            is_pending(message@),
    {
        Message { role: Role::System, content: "正在等待响应...".to_string(), timestamp }
    }

    /// Whether this message is the placeholder.
    pub fn is_pending(&self) -> (pending: bool)
        ensures
            pending == is_pending(self@),
    {
        self.role == Role::System && same_text(self.content.as_str(), "正在等待响应...")
    }

    /// The content as it is shown: unchanged.
    pub fn format_content(&self) -> (content: String)
        ensures
            content@ == self@.content,
    {
        self.content.clone()
    }
}

/// The log of the conversation.
#[derive(Debug)]
pub struct Conversation {
    log: Vec<Message>,
}

impl View for Conversation {
    type V = Seq<MessageView>;

    closed spec fn view(&self) -> Seq<MessageView> {
        message_views(self.log@)
    }
}

impl Conversation {
    /// What holds of every conversation: no entry but the last is a
    /// placeholder.
    #[verifier::type_invariant]
    pub open spec fn well_formed(self) -> bool {
        settled(self@)
    }

    /// The empty conversation.
    pub fn new() -> (conversation: Conversation)
        ensures
            conversation@ == Seq::<MessageView>::empty(),
            settled(conversation@),
    {
        let conversation = Conversation { log: Vec::new() };
        assert(conversation@ =~= Seq::<MessageView>::empty());
        conversation
    }

    /// The messages, oldest first.
    pub fn messages(&self) -> (log: &Vec<Message>)
        ensures
            message_views(log@) == self@,
    {
        &self.log
    }

    /// The number of messages.
    pub fn len(&self) -> (n: usize)
        ensures
            n == self@.len(),
            settled(self@),
    {
        proof {
            use_type_invariant(self);
        }
        self.log.len()
    }

    /// Takes in a message that arrived: it takes the place of the
    /// placeholder where the log ends in one, and is added at the end
    /// where it does not. Says whether the message is from the assistant.
    pub fn append(&mut self, message: Message) -> (from_assistant: bool)
        ensures
            final(self)@ == appended(old(self)@, message@),
            old(self)@.len() > 0 && is_pending(old(self)@.last()) ==> final(self)@.len() == old(
                self,
            )@.len() && final(self)@ == old(self)@.drop_last().push(message@),
            !(old(self)@.len() > 0 && is_pending(old(self)@.last())) ==> final(self)@.len() == old(
                self,
            )@.len() + 1 && final(self)@ == old(self)@.push(message@),
            from_assistant == (message.role == Role::Assistant),
            settled(final(self)@),
    {
        proof {
            use_type_invariant(&*self);
            lemma_appended_settled(self@, message@);
        }
        let mut log: Vec<Message> = Vec::new();
        assert(message_views(log@) =~= Seq::<MessageView>::empty());
        core::mem::swap(&mut log, &mut self.log);
        let n = log.len();
        if n > 0 && log[n - 1].is_pending() {
            log.pop();
            assert(message_views(log@) =~= old(self)@.drop_last());
        }
        let from_assistant = message.role == Role::Assistant;
        proof {
            assert(message_views(log@.push(message)) =~= message_views(log@).push(message@));
        }
        log.push(message);
        self.log = log;
        from_assistant
    }

    /// The content of the last message of the assistant, if there is one.
    pub fn last_assistant_content(&self) -> (content: Option<String>)
        ensures
            content is Some == last_assistant(self@) is Some,
            content matches Some(text) ==> last_assistant(self@) == Some(text@),
    {
        let mut i: usize = self.log.len();
        assert(self@.take(i as int) =~= self@);
        while i > 0
            invariant
                i <= self.log.len(),
                last_assistant(self@) == last_assistant(self@.take(i as int)),
            decreases i,
        {
            i -= 1;
            assert(self@.take(i + 1).drop_last() =~= self@.take(i as int));
            if self.log[i].role == Role::Assistant {
                return Some(self.log[i].content.clone());
            }
        }
        None
    }
}

/// The last message of the assistant is the one after which no message
/// of the assistant follows; a log without a message of the assistant has
/// none.
pub proof fn lemma_last_assistant(log: Seq<MessageView>)
    ensures
        last_assistant(log) is None <==> forall|i: int|
            0 <= i < log.len() ==> (#[trigger] log[i]).role != Role::Assistant,
        last_assistant(log) matches Some(text) ==> exists|i: int|
            0 <= i < log.len() && (#[trigger] log[i]).role == Role::Assistant && log[i].content
                == text && forall|j: int|
                i < j < log.len() ==> (#[trigger] log[j]).role != Role::Assistant,
    decreases log.len(),
{
    if log.len() > 0 {
        let front = log.drop_last();
        lemma_last_assistant(front);
        if log.last().role == Role::Assistant {
            let i = log.len() - 1;
            assert(log[i].role == Role::Assistant && log[i].content == log.last().content);
        } else {
            assert forall|i: int| 0 <= i < front.len() implies front[i] == log[i] by {}
            if last_assistant(front) is None {
                assert forall|i: int| 0 <= i < log.len() implies (#[trigger] log[i]).role
                    != Role::Assistant by {
                    if i < front.len() {
                        assert(front[i].role != Role::Assistant);
                    }
                }
            } else {
                let text = last_assistant(front)->0;
                let i = choose|i: int|
                    0 <= i < front.len() && (#[trigger] front[i]).role == Role::Assistant
                        && front[i].content == text && forall|j: int|
                        i < j < front.len() ==> (#[trigger] front[j]).role != Role::Assistant;
                assert(log[i].role == Role::Assistant && log[i].content == text);
                assert forall|j: int| i < j < log.len() implies (#[trigger] log[j]).role
                    != Role::Assistant by {
                    if j < front.len() {
                        assert(front[j].role != Role::Assistant);
                    }
                }
            }
        }
    }
}

/// A message that arrives takes the place of a placeholder at the end of
/// the log, which keeps its length; without one the log grows by the
/// message.
pub proof fn lemma_appended_len(log: Seq<MessageView>, message: MessageView)
    ensures
        log.len() > 0 && is_pending(log.last()) ==> appended(log, message).len() == log.len()
            && appended(log, message) == log.drop_last().push(message),
        !(log.len() > 0 && is_pending(log.last())) ==> appended(log, message).len() == log.len()
            + 1 && appended(log, message) == log.push(message),
        appended(log, message).last() == message,
{
}

/// A message that arrives takes nothing out of the log but a placeholder
/// at its end: every other entry stays where it is.
pub proof fn lemma_appended_keeps(log: Seq<MessageView>, message: MessageView, i: int)
    requires
        0 <= i < log.len(),
        !is_pending(log[i]) || i < log.len() - 1,
    ensures
        i < appended(log, message).len(),
        appended(log, message)[i] == log[i],
{
}

/// Messages stand in the log in the order in which they arrived: of two
/// that arrive one after the other, the first stands right before the
/// second at the end of the log, unless it was a placeholder.
pub proof fn lemma_arrival_order(log: Seq<MessageView>, first: MessageView, second: MessageView)
    requires
        !is_pending(first),
    ensures
        appended(appended(log, first), second) == appended(log, first).push(second),
{
    assert(appended(log, first).last() == first);
}

/// A log in which only the last entry may be a placeholder is such a log
/// again after a message arrived.
pub proof fn lemma_appended_settled(log: Seq<MessageView>, message: MessageView)
    requires
        settled(log),
    ensures
        settled(appended(log, message)),
{
    let after = appended(log, message);
    assert forall|i: int| 0 <= i < after.len() - 1 implies !is_pending(#[trigger] after[i]) by {
        assert(after[i] == log[i]);
    }
}

/// After a message of the assistant arrived, its content is the last of
/// the assistant; a message of another role leaves the last of the
/// assistant as it was.
pub proof fn lemma_last_assistant_after_append(log: Seq<MessageView>, message: MessageView)
    ensures
        last_assistant(appended(log, message)) == if message.role == Role::Assistant {
            Some(message.content)
        } else {
            last_assistant(log)
        },
{
    let after = appended(log, message);
    if log.len() > 0 && is_pending(log.last()) {
        assert(after.drop_last() =~= log.drop_last());
    } else {
        assert(after.drop_last() =~= log);
    }
}

/// How a role is named in the transcript.
pub open spec fn role_label(role: Role) -> Seq<char> {
    match role {
        Role::User => "你"@,
        Role::Assistant => "AI"@,
        Role::System => "系统"@,
    }
}

/// The header that stands before a message: the time in square brackets,
/// the role's name, a colon and a space.
pub open spec fn header_of(message: MessageView) -> Seq<char> {
    "["@ + message.timestamp + "] "@ + role_label(message.role) + ": "@
}

/// The columns that are left for a message's content beside a header of
/// `header_bytes` bytes in a pane of `width` columns: at least one.
pub open spec fn content_columns(width: nat, header_bytes: nat) -> nat {
    if width > header_bytes {
        (width - header_bytes) as nat
    } else {
        1
    }
}

/// The lines one below another, every line but the first behind `pad`
/// spaces.
pub open spec fn indented(lines: Seq<Seq<char>>, pad: nat) -> Seq<char>
    decreases lines.len(),
{
    if lines.len() == 0 {
        Seq::empty()
    } else if lines.len() == 1 {
        lines[0]
    } else {
        indented(lines.drop_last(), pad) + seq!['\n'] + repeated(' ', pad) + lines.last()
    }
}

/// One message of the plain transcript: the header, the content laid out
/// in the columns beside it, its further lines below the first, and an
/// empty line.
pub open spec fn plain_entry(message: MessageView, width: nat) -> Seq<char> {
    let header = header_of(message);
    let pad = utf8_len(header);
    header + indented(wrapped(message.content, content_columns(width, pad)), pad) + seq![
        '\n',
        '\n',
    ]
}

/// The plain transcript of `log` in a pane of `width` columns.
pub open spec fn plain_text(log: Seq<MessageView>, width: nat) -> Seq<char>
    decreases log.len(),
{
    if log.len() == 0 {
        Seq::empty()
    } else {
        plain_text(log.drop_last(), width) + plain_entry(log.last(), width)
    }
}

/// The height of the plain transcript in lines, as a 16-bit number.
pub open spec fn height_of(log: Seq<MessageView>, width: nat) -> u16 {
    (line_count(plain_text(log, width)) % 0x1_0000) as u16
}

/// The span of the given characters in the style that sets nothing.
pub open spec fn raw_span(text: Seq<char>) -> SpanView {
    SpanView { text, style: plain_style() }
}

/// Each line behind a span of four spaces.
pub open spec fn inset(lines: Seq<Seq<SpanView>>) -> Seq<Seq<SpanView>> {
    Seq::new(lines.len(), |i: int| seq![raw_span("    "@)] + lines[i])
}

/// One message of the styled transcript, where `events` is what the
/// message's content is read as: the header in its style; below it the
/// content, drawn from `events` for a message of the assistant and as it
/// stands for any other, behind four spaces; and an empty line.
pub open spec fn styled_entry(message: MessageView, events: Seq<EventView>) -> Seq<
    Seq<SpanView>,
> {
    let header = seq![SpanView { text: header_of(message), style: header_style() }];
    let body = if message.role == Role::Assistant {
        inset(rendered(events))
    } else {
        seq![seq![raw_span("    "@), raw_span(message.content)]]
    };
    seq![header] + body + seq![seq![raw_span(Seq::empty())]]
}

/// The styled transcript of `log`.
pub open spec fn styled_text(log: Seq<MessageView>) -> Seq<Seq<SpanView>>
    decreases log.len(),
{
    if log.len() == 0 {
        Seq::empty()
    } else {
        styled_text(log.drop_last()) + styled_entry(
            log.last(),
            markup_events(log.last().content),
        )
    }
}

/// How a role is named in the transcript.
pub fn role_name(role: Role) -> (name: &'static str)
    ensures
        name@ == role_label(role),
{
    match role {
        Role::User => "你",
        Role::Assistant => "AI",
        Role::System => "系统",
    }
}

/// The header that stands before `message`.
pub fn header_chars(message: &Message) -> (header: Vec<char>)
    ensures
        header@ == header_of(message@),
{
    let mut header = chars_of("[");
    push_all(&mut header, &chars_of(message.timestamp.as_str()));
    push_all(&mut header, &chars_of("] "));
    push_all(&mut header, &chars_of(role_name(message.role)));
    push_all(&mut header, &chars_of(": "));
    header
}

/// Adds one message of the plain transcript to `out`.
fn push_plain_entry(out: &mut Vec<char>, message: &Message, width: usize)
    ensures
        final(out)@ == old(out)@ + plain_entry(message@, width as nat),
{
    let header = header_chars(message);
    let pad = utf8_len_of(&header);
    let columns: usize = if width as u128 > pad {
        (width as u128 - pad) as usize
    } else {
        1
    };
    let content = chars_of(message.content.as_str());
    let lines = wrap_rows(&content, columns);
    let ghost found = wrapped(message@.content, content_columns(width as nat, pad as nat));
    let mut body: Vec<char> = Vec::new();
    let mut k: usize = 0;
    assert(found.take(0) =~= Seq::<Seq<char>>::empty());
    while k < lines.len()
        invariant
            k <= lines.len(),
            found == crate::text::rows(lines@),
            body@ == indented(found.take(k as int), pad as nat),
        decreases lines.len() - k,
    {
        proof {
            let upto = found.take(k + 1);
            assert(upto.drop_last() =~= found.take(k as int));
            assert(upto.last() == lines[k as int]@);
        }
        if k > 0 {
            body.push('\n');
            let mut p: u128 = 0;
            let ghost start = body@;
            while p < pad
                invariant
                    p <= pad,
                    body@ == start + repeated(' ', p as nat),
                decreases pad - p,
            {
                body.push(' ');
                p += 1;
                assert(body@ =~= start + repeated(' ', p as nat));
            }
            assert(body@ =~= start + repeated(' ', pad as nat));
        } else {
            assert(body@ =~= Seq::<char>::empty());
        }
        push_all(&mut body, &lines[k]);
        proof {
            let upto = found.take(k + 1);
            if k > 0 {
                assert(body@ =~= indented(upto.drop_last(), pad as nat) + seq!['\n'] + repeated(
                    ' ',
                    pad as nat,
                ) + upto.last());
            } else {
                assert(body@ =~= upto[0]);
            }
        }
        k += 1;
    }
    assert(found.take(lines.len() as int) =~= found);
    push_all(out, &header);
    push_all(out, &body);
    out.push('\n');
    out.push('\n');
    assert(out@ =~= old(out)@ + plain_entry(message@, width as nat));
}

impl Conversation {
    /// The characters of the plain transcript.
    fn plain_chars(&self, width: usize) -> (out: Vec<char>)
        ensures
            out@ == plain_text(self@, width as nat),
    {
        let mut out: Vec<char> = Vec::new();
        let mut i: usize = 0;
        assert(self@.take(0) =~= Seq::<MessageView>::empty());
        while i < self.log.len()
            invariant
                i <= self.log.len(),
                out@ == plain_text(self@.take(i as int), width as nat),
            decreases self.log.len() - i,
        {
            proof {
                let upto = self@.take(i + 1);
                assert(upto.drop_last() =~= self@.take(i as int));
                assert(upto.last() == self.log[i as int]@);
            }
            push_plain_entry(&mut out, &self.log[i], width);
            i += 1;
        }
        assert(self@.take(self.log.len() as int) =~= self@);
        out
    }

    /// The plain transcript in a pane of `width` columns. Each message
    /// begins with its header; its content is laid out in the columns that
    /// the header leaves, at least one, and its further lines stand below
    /// the first; an empty line follows.
    pub fn render_plain(&self, width: usize) -> (text: String)
        ensures
            text@ == plain_text(self@, width as nat),
    {
        string_of(&self.plain_chars(width))
    }

    /// The height of the plain transcript in lines, cut to 16 bits.
    pub fn content_height(&self, width: usize) -> (height: u16)
        ensures
            height == height_of(self@, width as nat),
    {
        let lines = count_lines(&self.plain_chars(width));
        (lines % 0x1_0000) as u16
    }
}

/// A span of the given text in the style that sets nothing.
fn raw(text: &str) -> (span: StyledSpan)
    ensures
        span@ == raw_span(text@),
{
    StyledSpan { text: text.to_string(), style: TextStyle::plain() }
}

/// The lines of one message of the styled transcript, where `events` is
/// what the message's content is read as: the header in its style; below
/// it the content behind four spaces, drawn from `events` for a message of
/// the assistant and as it stands for any other; and an empty line.
pub fn message_lines(message: &Message, events: &Vec<MarkupEvent>) -> (lines: Vec<StyledLine>)
    ensures
        line_views(lines@) == styled_entry(message@, event_views(events@)),
{
    let mut lines: Vec<StyledLine> = Vec::new();
    let mut top: Vec<StyledSpan> = Vec::new();
    let header = StyledSpan {
        text: string_of(&header_chars(message)),
        style: TextStyle::header(),
    };
    proof {
        lemma_span_views_push(top@, header);
        assert(span_views(top@) =~= Seq::<SpanView>::empty());
        assert(line_views(lines@) =~= Seq::<Seq<SpanView>>::empty());
    }
    top.push(header);
    let first = StyledLine { spans: top };
    proof {
        lemma_line_views_push(lines@, first);
    }
    lines.push(first);
    assert(line_views(lines@) =~= seq![
        seq![SpanView { text: header_of(message@), style: header_style() }],
    ]);
    let ghost head = line_views(lines@);
    if message.role == Role::Assistant {
        let mut drawn = render_events(events);
        let ghost body = rendered(event_views(events@));
        let mut k: usize = 0;
        assert(inset(body).take(0) =~= Seq::<Seq<SpanView>>::empty());
        while k < drawn.len()
            invariant
                k <= drawn.len(),
                line_views(drawn@) == body,
                line_views(lines@) == head + inset(body).take(k as int),
            decreases drawn.len() - k,
        {
            let mut spans: Vec<StyledSpan> = Vec::new();
            let margin = raw("    ");
            proof {
                lemma_span_views_push(spans@, margin);
                assert(span_views(spans@) =~= Seq::<SpanView>::empty());
            }
            spans.push(margin);
            let ghost row = drawn[k as int]@;
            let line = &drawn[k];
            let mut j: usize = 0;
            while j < line.spans.len()
                invariant
                    j <= line.spans.len(),
                    span_views(line.spans@) == row,
                    span_views(spans@) == seq![raw_span("    "@)] + row.take(j as int),
                decreases line.spans.len() - j,
            {
                let span = StyledSpan { text: line.spans[j].text.clone(), style: line.spans[j].style };
                proof {
                    lemma_span_views_push(spans@, span);
                    assert(span@ == row[j as int]);
                    assert(seq![raw_span("    "@)] + row.take(j + 1) =~= (seq![raw_span("    "@)]
                        + row.take(j as int)).push(span@));
                }
                spans.push(span);
                j += 1;
            }
            assert(row.take(line.spans.len() as int) =~= row);
            let done = StyledLine { spans };
            proof {
                lemma_line_views_push(lines@, done);
                assert(done@ == inset(body)[k as int]);
                assert(head + inset(body).take(k + 1) =~= (head + inset(body).take(
                    k as int,
                )).push(done@));
            }
            lines.push(done);
            k += 1;
        }
        assert(inset(body).take(drawn.len() as int) =~= inset(body));
    } else {
        let mut spans: Vec<StyledSpan> = Vec::new();
        let margin = raw("    ");
        let text = raw(message.content.as_str());
        proof {
            assert(span_views(spans@) =~= Seq::<SpanView>::empty());
            lemma_span_views_push(spans@, margin);
            lemma_span_views_push(spans@.push(margin), text);
        }
        spans.push(margin);
        spans.push(text);
        let done = StyledLine { spans };
        proof {
            lemma_line_views_push(lines@, done);
            assert(done@ =~= seq![raw_span("    "@), raw_span(message@.content)]);
            assert(line_views(lines@.push(done)) =~= head + seq![
                seq![raw_span("    "@), raw_span(message@.content)],
            ]);
        }
        lines.push(done);
    }
    let ghost upper = line_views(lines@);
    let mut spans: Vec<StyledSpan> = Vec::new();
    let blank = raw("");
    proof {
        assert(span_views(spans@) =~= Seq::<SpanView>::empty());
        lemma_span_views_push(spans@, blank);
        reveal_strlit("");
        assert(""@ =~= Seq::<char>::empty());
    }
    spans.push(blank);
    let last = StyledLine { spans };
    proof {
        lemma_line_views_push(lines@, last);
        assert(last@ =~= seq![raw_span(Seq::empty())]);
        assert(line_views(lines@.push(last)) =~= upper + seq![seq![raw_span(Seq::empty())]]);
    }
    lines.push(last);
    lines
}

impl Conversation {
    /// The styled transcript: for each message its header, its content
    /// behind four spaces, and an empty line. The content of a message of
    /// the assistant is read as Markdown and drawn as markup; that of any
    /// other message is shown as it stands.
    pub fn render_styled(&self) -> (lines: Vec<StyledLine>)
        ensures
            line_views(lines@) == styled_text(self@),
    {
        let mut lines: Vec<StyledLine> = Vec::new();
        let mut i: usize = 0;
        proof {
            assert(self@.take(0) =~= Seq::<MessageView>::empty());
            assert(line_views(lines@) =~= Seq::<Seq<SpanView>>::empty());
        }
        while i < self.log.len()
            invariant
                i <= self.log.len(),
                line_views(lines@) == styled_text(self@.take(i as int)),
            decreases self.log.len() - i,
        {
            let message = &self.log[i];
            let events = if message.role == Role::Assistant {
                parse_markup(message.content.as_str())
            } else {
                Vec::new()
            };
            let mut entry = message_lines(message, &events);
            let ghost before = line_views(lines@);
            let ghost added = line_views(entry@);
            proof {
                let upto = self@.take(i + 1);
                assert(upto.drop_last() =~= self@.take(i as int));
                assert(upto.last() == message@);
                assert(added == styled_entry(message@, markup_events(message@.content)));
            }
            lines.append(&mut entry);
            assert(line_views(lines@) =~= before + added);
            i += 1;
        }
        assert(self@.take(self.log.len() as int) =~= self@);
        lines
    }
}

} // verus!
