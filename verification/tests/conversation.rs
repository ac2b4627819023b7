use llm_tui::conversation::{header_chars, message_lines, role_name, Conversation, Message, Role};
use llm_tui::markup::{markdown_to_styled_text, StyledLine, StyledSpan, TextStyle, Tint};

fn message(role: Role, content: &str) -> Message {
    Message::new(role, content.to_string(), "12:34:56".to_string())
}

fn log_of(messages: Vec<Message>) -> Conversation {
    let mut log = Conversation::new();
    for m in messages {
        log.append(m);
    }
    log
}

fn plain() -> TextStyle {
    TextStyle { fg: None, bg: None, bold: false, italic: false }
}

fn raw(text: &str) -> StyledSpan {
    StyledSpan { text: text.to_string(), style: plain() }
}

/// The plain transcript written with std, to hold the library against.
fn plain_with_std(messages: &[Message], width: usize) -> String {
    let mut out = String::new();
    for m in messages {
        let name = match m.role {
            Role::User => "你",
            Role::Assistant => "AI",
            Role::System => "系统",
        };
        let header = format!("[{}] {}: ", m.timestamp, name);
        out.push_str(&header);
        let columns = width.saturating_sub(header.len()).max(1);
        let wrapped = llm_tui::layout::wrap_text(&m.content, columns);
        let body = wrapped
            .lines()
            .enumerate()
            .map(|(i, l)| if i == 0 { l.to_string() } else { format!("{:w$}{}", "", l, w = header.len()) })
            .collect::<Vec<_>>()
            .join("\n");
        out.push_str(&body);
        out.push_str("\n\n");
    }
    out
}

#[test]
fn appending_grows_the_log_by_one() {
    let mut log = Conversation::new();
    assert_eq!(log.len(), 0);
    assert!(!log.append(message(Role::User, "hi")));
    assert_eq!(log.len(), 1);
    assert!(log.append(message(Role::Assistant, "hello")));
    assert_eq!(log.len(), 2);
    assert!(!log.append(message(Role::System, "note")));
    assert_eq!(log.len(), 3);
    assert_eq!(log.messages()[2], message(Role::System, "note"));
}

#[test]
fn appending_takes_the_place_of_the_placeholder() {
    let mut log = log_of(vec![message(Role::User, "hi")]);
    log.append(Message::pending("12:34:57".to_string()));
    assert_eq!(log.len(), 2);
    assert!(log.messages()[1].is_pending());
    log.append(message(Role::Assistant, "hello"));
    assert_eq!(log.len(), 2);
    assert_eq!(log.messages()[0], message(Role::User, "hi"));
    assert_eq!(log.messages()[1], message(Role::Assistant, "hello"));
}

#[test]
fn a_placeholder_takes_the_place_of_a_placeholder() {
    let mut log = Conversation::new();
    log.append(Message::pending("00:00:01".to_string()));
    log.append(Message::pending("00:00:02".to_string()));
    assert_eq!(log.len(), 1);
    assert_eq!(log.messages()[0].timestamp, "00:00:02");
}

#[test]
fn only_a_message_of_the_system_is_a_placeholder() {
    let pending = Message::pending("00:00:00".to_string());
    assert_eq!(pending.role, Role::System);
    assert_eq!(pending.content, "正在等待响应...");
    assert!(pending.is_pending());
    assert!(!message(Role::User, "正在等待响应...").is_pending());
    assert!(!message(Role::Assistant, "正在等待响应...").is_pending());
    assert!(!message(Role::System, "正在等待响应").is_pending());
    let mut log = log_of(vec![message(Role::User, "正在等待响应...")]);
    log.append(message(Role::User, "next"));
    assert_eq!(log.len(), 2);
}

#[test]
fn the_last_reply_of_the_assistant_is_found_from_the_end() {
    assert_eq!(Conversation::new().last_assistant_content(), None);
    let none = log_of(vec![message(Role::User, "a"), message(Role::System, "b")]);
    assert_eq!(none.last_assistant_content(), None);
    let some = log_of(vec![
        message(Role::Assistant, "first"),
        message(Role::User, "q"),
        message(Role::Assistant, "second"),
        message(Role::System, "note"),
    ]);
    assert_eq!(some.last_assistant_content(), Some("second".to_string()));
}

#[test]
fn the_last_reply_follows_what_is_appended() {
    let mut log = log_of(vec![message(Role::Assistant, "old")]);
    log.append(message(Role::User, "q"));
    assert_eq!(log.last_assistant_content(), Some("old".to_string()));
    log.append(Message::pending("1".to_string()));
    log.append(message(Role::Assistant, "new"));
    assert_eq!(log.last_assistant_content(), Some("new".to_string()));
}

#[test]
fn content_is_shown_unchanged() {
    assert_eq!(message(Role::User, " a\tb ").format_content(), " a\tb ");
    let copy = message(Role::User, "x").clone();
    assert_eq!(copy, message(Role::User, "x"));
}

#[test]
fn headers_name_the_time_and_the_role() {
    assert_eq!(role_name(Role::User), "你");
    assert_eq!(role_name(Role::Assistant), "AI");
    assert_eq!(role_name(Role::System), "系统");
    let header: String = header_chars(&message(Role::Assistant, "x")).into_iter().collect();
    assert_eq!(header, "[12:34:56] AI: ");
    let header: String = header_chars(&message(Role::System, "x")).into_iter().collect();
    assert_eq!(header, "[12:34:56] 系统: ");
}

#[test]
fn the_plain_transcript_puts_the_content_beside_the_header() {
    let log = log_of(vec![message(Role::Assistant, "one two three four five six")]);
    // The header takes 15 bytes, which leaves 10 columns of 25.
    assert_eq!(
        log.render_plain(25),
        "[12:34:56] AI: one two\n               three four\n               five six\n\n"
    );
    assert_eq!(log.content_height(25), 4);
}

#[test]
fn the_plain_transcript_of_an_empty_message_is_its_header() {
    let log = log_of(vec![message(Role::User, "")]);
    assert_eq!(log.render_plain(80), "[12:34:56] 你: \n\n");
    assert_eq!(log.content_height(80), 2);
    assert_eq!(Conversation::new().render_plain(80), "");
    assert_eq!(Conversation::new().content_height(80), 0);
}

#[test]
fn a_pane_narrower_than_the_header_leaves_one_column() {
    let log = log_of(vec![message(Role::User, "abc")]);
    let pad = " ".repeat("[12:34:56] 你: ".len());
    let expected = format!("[12:34:56] 你: a\n{pad}b\n{pad}c\n\n");
    assert_eq!(log.render_plain(0), expected);
    assert_eq!(log.render_plain(16), expected);
    assert_eq!(log.render_plain(17), expected);
    assert_eq!(log.render_plain(18), format!("[12:34:56] 你: ab\n{pad}c\n\n"));
}

#[test]
fn the_plain_transcript_agrees_with_std() {
    let messages = vec![
        message(Role::User, "hello there, how are you today?"),
        message(Role::Assistant, "# Fine\n\nthanks for asking, and a verylongwordwithoutanybreaks"),
        message(Role::System, "错误: 请先配置API认证令牌"),
        message(Role::User, ""),
        message(Role::Assistant, "多行\n文本 with mixed 内容"),
    ];
    let log = log_of(messages.clone());
    for width in 0..60 {
        let text = log.render_plain(width);
        assert_eq!(text, plain_with_std(&messages, width), "at {}", width);
        assert_eq!(log.content_height(width) as usize, text.lines().count());
    }
}

#[test]
fn the_styled_transcript_draws_replies_as_markup() {
    let log = log_of(vec![
        message(Role::User, "# not a heading"),
        message(Role::Assistant, "# A heading\n\nand *text*"),
    ]);
    let header_style = TextStyle { fg: Some(Tint::Green), bg: None, bold: false, italic: false };
    let mut expected = vec![
        StyledLine {
            spans: vec![StyledSpan { text: "[12:34:56] 你: ".to_string(), style: header_style }],
        },
        StyledLine { spans: vec![raw("    "), raw("# not a heading")] },
        StyledLine { spans: vec![raw("")] },
        StyledLine {
            spans: vec![StyledSpan { text: "[12:34:56] AI: ".to_string(), style: header_style }],
        },
    ];
    for mut drawn in markdown_to_styled_text("# A heading\n\nand *text*") {
        drawn.spans.insert(0, raw("    "));
        expected.push(drawn);
    }
    expected.push(StyledLine { spans: vec![raw("")] });
    let lines = log.render_styled();
    assert_eq!(lines, expected);
    assert_eq!(lines.len(), 7);
    assert_eq!(lines[4].spans[1].text, "# ");
    assert_eq!(lines[5].spans[3].text, "text");
    assert!(lines[5].spans[3].style.italic);
}

#[test]
fn the_lines_of_a_message_take_the_events_they_are_given() {
    let events = vec![llm_tui::markup::MarkupEvent::Text("drawn".to_string())];
    let reply = message_lines(&message(Role::Assistant, "ignored"), &events);
    assert_eq!(reply.len(), 3);
    assert_eq!(reply[1].spans, vec![raw("    "), raw("drawn")]);
    let note = message_lines(&message(Role::System, "shown"), &events);
    assert_eq!(note.len(), 3);
    assert_eq!(note[1].spans, vec![raw("    "), raw("shown")]);
    assert_eq!(note[2].spans, vec![raw("")]);
    let empty = message_lines(&message(Role::Assistant, ""), &Vec::new());
    assert_eq!(empty.len(), 2);
}

#[test]
fn the_height_is_cut_to_sixteen_bits() {
    let mut log = Conversation::new();
    for _ in 0..32768 {
        log.append(message(Role::System, "x"));
    }
    assert_eq!(log.render_plain(80).lines().count(), 65536);
    assert_eq!(log.content_height(80), 0);
    log.append(message(Role::System, "x"));
    assert_eq!(log.content_height(80), 2);
}
