use llm_tui::markup::{
    markdown_to_styled_text, render_events, repeat_char, MarkupEvent, MarkupTag, StyledLine,
    StyledSpan, TextStyle, Tint,
};

fn plain() -> TextStyle {
    TextStyle { fg: None, bg: None, bold: false, italic: false }
}

fn italic() -> TextStyle {
    TextStyle { fg: None, bg: None, bold: false, italic: true }
}

fn bold() -> TextStyle {
    TextStyle { fg: None, bg: None, bold: true, italic: false }
}

fn heading() -> TextStyle {
    TextStyle { fg: Some(Tint::Yellow), bg: None, bold: true, italic: false }
}

fn code() -> TextStyle {
    TextStyle { fg: Some(Tint::Cyan), bg: Some(Tint::Black), bold: false, italic: false }
}

fn span(text: &str, style: TextStyle) -> StyledSpan {
    StyledSpan { text: text.to_string(), style }
}

fn line(spans: Vec<StyledSpan>) -> StyledLine {
    StyledLine { spans }
}

fn text(run: &str) -> MarkupEvent {
    MarkupEvent::Text(run.to_string())
}

#[test]
fn styles_are_what_they_are_named() {
    assert_eq!(TextStyle::plain(), plain());
    assert_eq!(TextStyle::heading(), heading());
    assert_eq!(
        TextStyle::header(),
        TextStyle { fg: Some(Tint::Green), bg: None, bold: false, italic: false }
    );
    assert_eq!(TextStyle::run(true, false, false), code());
    assert_eq!(TextStyle::run(false, true, false), bold());
    assert_eq!(TextStyle::run(false, false, true), italic());
}

#[test]
fn no_events_draw_no_lines() {
    assert!(render_events(&Vec::new()).is_empty());
    assert!(markdown_to_styled_text("").is_empty());
}

#[test]
fn a_heading_opens_with_a_marker_for_each_level() {
    let events = vec![
        MarkupEvent::Start(MarkupTag::Heading(3)),
        text("Title"),
        MarkupEvent::End(MarkupTag::Heading(3)),
    ];
    assert_eq!(
        render_events(&events),
        vec![line(vec![span("### ", heading()), span("Title", plain())])]
    );
    assert_eq!(
        markdown_to_styled_text("# One"),
        vec![line(vec![span("# ", heading()), span("One", plain())])]
    );
    assert_eq!(
        markdown_to_styled_text("###### Six"),
        vec![line(vec![span("###### ", heading()), span("Six", plain())])]
    );
}

#[test]
fn a_heading_begins_a_new_line() {
    let events = vec![text("before"), MarkupEvent::Start(MarkupTag::Heading(1)), text("T")];
    assert_eq!(
        render_events(&events),
        vec![
            line(vec![span("before", plain())]),
            line(vec![span("# ", heading()), span("T", plain())]),
        ]
    );
}

#[test]
fn text_in_a_code_block_is_drawn_as_code() {
    assert_eq!(
        markdown_to_styled_text("```\nlet x = 1;\n```"),
        vec![line(vec![span("let x = 1;\n", code())])]
    );
    let events = vec![
        text("a"),
        MarkupEvent::Start(MarkupTag::CodeBlock),
        text("b"),
        MarkupEvent::End(MarkupTag::CodeBlock),
        text("c"),
    ];
    assert_eq!(
        render_events(&events),
        vec![
            line(vec![span("a", plain())]),
            line(vec![span("b", code())]),
            line(vec![span("c", plain())]),
        ]
    );
}

#[test]
fn items_are_indented_by_their_depth() {
    assert_eq!(
        markdown_to_styled_text("- a\n- b\n  - c\n"),
        vec![
            line(vec![span("• ", plain()), span("a", plain())]),
            line(vec![span("• ", plain()), span("b", plain())]),
            line(vec![span("  • ", plain()), span("c", plain())]),
        ]
    );
    let events = vec![
        MarkupEvent::Start(MarkupTag::List),
        MarkupEvent::Start(MarkupTag::List),
        MarkupEvent::Start(MarkupTag::List),
        MarkupEvent::Start(MarkupTag::Item),
        MarkupEvent::End(MarkupTag::List),
        MarkupEvent::Start(MarkupTag::Item),
    ];
    assert_eq!(
        render_events(&events),
        vec![line(vec![span("    • ", plain())]), line(vec![span("  • ", plain())])]
    );
}

#[test]
fn an_item_outside_any_list_has_no_indent() {
    let events = vec![
        MarkupEvent::End(MarkupTag::List),
        MarkupEvent::Start(MarkupTag::Item),
        text("x"),
        MarkupEvent::Start(MarkupTag::List),
        MarkupEvent::Start(MarkupTag::Item),
    ];
    assert_eq!(
        render_events(&events),
        vec![
            line(vec![span("• ", plain()), span("x", plain())]),
            line(vec![span("• ", plain())]),
        ]
    );
}

#[test]
fn emphasis_holds_for_the_text_that_follows_and_breaks_no_line() {
    assert_eq!(
        markdown_to_styled_text("some *slanted* and **heavy** text"),
        vec![line(vec![
            span("some ", plain()),
            span("", italic()),
            span("slanted", italic()),
            span(" and ", plain()),
            span("", bold()),
            span("heavy", bold()),
            span(" text", plain()),
        ])]
    );
}

#[test]
fn emphasis_inside_strong_is_both() {
    let both = TextStyle { fg: None, bg: None, bold: true, italic: true };
    let events = vec![
        MarkupEvent::Start(MarkupTag::Strong),
        text("a"),
        MarkupEvent::Start(MarkupTag::Emphasis),
        text("b"),
        MarkupEvent::End(MarkupTag::Emphasis),
        text("c"),
        MarkupEvent::End(MarkupTag::Strong),
        text("d"),
    ];
    assert_eq!(
        render_events(&events),
        vec![line(vec![
            span("", bold()),
            span("a", bold()),
            span("", italic()),
            span("b", both),
            span("c", bold()),
            span("d", plain()),
        ])]
    );
}

#[test]
fn breaks_and_block_ends_begin_a_new_line() {
    assert_eq!(
        markdown_to_styled_text("one\ntwo  \nthree\n\nfour"),
        vec![
            line(vec![span("one", plain())]),
            line(vec![span("two", plain())]),
            line(vec![span("three", plain())]),
            line(vec![span("four", plain())]),
        ]
    );
    let events = vec![
        MarkupEvent::SoftBreak,
        text("a"),
        MarkupEvent::HardBreak,
        MarkupEvent::HardBreak,
        text("b"),
        MarkupEvent::End(MarkupTag::Other),
        MarkupEvent::End(MarkupTag::Item),
        text("c"),
        MarkupEvent::End(MarkupTag::List),
        text("d"),
    ];
    assert_eq!(
        render_events(&events),
        vec![
            line(vec![span("a", plain())]),
            line(vec![span("b", plain())]),
            line(vec![span("c", plain()), span("d", plain())]),
        ]
    );
}

#[test]
fn what_is_not_drawn_is_passed_over() {
    assert_eq!(
        markdown_to_styled_text("a `b` c"),
        vec![line(vec![span("a ", plain()), span(" c", plain())])]
    );
    let events = vec![MarkupEvent::Other, MarkupEvent::Start(MarkupTag::Other), text("x")];
    assert_eq!(render_events(&events), vec![line(vec![span("x", plain())])]);
}

#[test]
fn rendering_twice_gives_the_same_lines() {
    let text = "# T\n\n- a *b*\n\n```\nc\n```\n";
    assert_eq!(markdown_to_styled_text(text), markdown_to_styled_text(text));
}

#[test]
fn repeat_char_repeats() {
    assert_eq!(repeat_char('#', 0), Vec::<char>::new());
    assert_eq!(repeat_char('#', 3), vec!['#', '#', '#']);
}
