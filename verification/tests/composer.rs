use llm_tui::composer::Composer;

fn type_in(composer: &mut Composer, text: &str) {
    for c in text.chars() {
        composer.push_char(c);
    }
}

fn with_history(entries: &[&str]) -> Composer {
    let mut composer = Composer::new();
    for entry in entries {
        type_in(&mut composer, entry);
        composer.send();
    }
    composer
}

#[test]
fn history_navigation_walks_up_and_down() {
    let mut composer = with_history(&["a", "b", "c"]);
    type_in(&mut composer, "draft");

    composer.navigate(true);
    assert_eq!(composer.input(), "c");
    assert_eq!(composer.cursor(), Some(2));
    composer.navigate(true);
    assert_eq!(composer.input(), "b");
    composer.navigate(true);
    assert_eq!(composer.input(), "a");
    assert_eq!(composer.cursor(), Some(0));

    composer.navigate(true);
    assert_eq!(composer.input(), "a");
    assert_eq!(composer.cursor(), Some(0));

    composer.navigate(false);
    assert_eq!(composer.input(), "b");
    composer.navigate(false);
    assert_eq!(composer.input(), "c");
    assert_eq!(composer.cursor(), Some(2));

    composer.navigate(false);
    assert_eq!(composer.input(), "draft");
    assert_eq!(composer.cursor(), None);
    assert_eq!(composer.draft(), "draft");
}

#[test]
fn the_draft_changes_on_the_first_step_only() {
    let mut composer = with_history(&["a", "b"]);
    type_in(&mut composer, "draft");
    composer.navigate(true);
    composer.push_char('!');
    for up in [true, true, false, false] {
        composer.navigate(up);
        assert_eq!(composer.draft(), "draft");
    }
    assert_eq!(composer.cursor(), None);
    assert_eq!(composer.input(), "draft");
    type_in(&mut composer, " two");
    composer.navigate(true);
    assert_eq!(composer.draft(), "draft two");
    assert_eq!(composer.input(), "b");
}

#[test]
fn navigation_without_history_changes_nothing() {
    let mut composer = Composer::new();
    type_in(&mut composer, "text");
    composer.navigate(true);
    assert_eq!(composer.input(), "text");
    assert_eq!(composer.cursor(), None);
    composer.navigate(false);
    assert_eq!(composer.input(), "text");
    assert_eq!(composer.cursor(), None);
}

#[test]
fn the_first_step_keeps_the_draft() {
    let mut composer = with_history(&["a", "b"]);
    type_in(&mut composer, "half written");
    composer.navigate(true);
    assert_eq!(composer.draft(), "half written");
    assert_eq!(composer.input(), "b");
}

#[test]
fn a_first_step_down_recalls_the_oldest_entry() {
    let mut composer = with_history(&["a", "b"]);
    composer.navigate(false);
    assert_eq!(composer.cursor(), Some(0));
    assert_eq!(composer.input(), "a");
}

#[test]
fn sending_records_what_is_no_repeat_and_not_empty() {
    let mut composer = Composer::new();
    for text in ["one", "one", "", "two", "", "two", "one", "one"] {
        type_in(&mut composer, text);
        assert_eq!(composer.send(), text);
        assert_eq!(composer.input(), "");
    }
    assert_eq!(composer.entries(), &vec!["one".to_string(), "two".to_string(), "one".to_string()]);
}

#[test]
fn sending_records_whitespace() {
    let mut composer = Composer::new();
    for text in [" ", " ", "   ", "\t\n", "a ", "a"] {
        type_in(&mut composer, text);
        assert_eq!(composer.send(), text);
    }
    assert_eq!(
        composer.entries(),
        &vec![
            " ".to_string(),
            "   ".to_string(),
            "\t\n".to_string(),
            "a ".to_string(),
            "a".to_string(),
        ]
    );
}

#[test]
fn recording_keeps_the_input_and_the_cursor() {
    let mut composer = with_history(&["a", "b"]);
    type_in(&mut composer, "draft");
    composer.navigate(true);
    composer.record("c");
    composer.record("c");
    composer.record("");
    assert_eq!(composer.entries(), &vec!["a".to_string(), "b".to_string(), "c".to_string()]);
    composer.record(" ");
    assert_eq!(composer.entries().len(), 4);
    assert_eq!(composer.entries()[3], " ");
    assert_eq!(composer.cursor(), Some(1));
    assert_eq!(composer.input(), "b");
    assert_eq!(composer.draft(), "draft");
}

#[test]
fn sending_ends_navigation() {
    let mut composer = with_history(&["a", "b"]);
    type_in(&mut composer, "draft");
    composer.navigate(true);
    assert_eq!(composer.send(), "b");
    assert_eq!(composer.cursor(), None);
    assert_eq!(composer.draft(), "");
    assert_eq!(composer.entries().len(), 2);
}

#[test]
fn restoring_moves_the_draft_into_the_input() {
    let mut composer = with_history(&["a"]);
    type_in(&mut composer, "draft");
    composer.navigate(true);
    composer.restore_draft();
    assert_eq!(composer.input(), "draft");
    assert_eq!(composer.draft(), "");
    assert_eq!(composer.cursor(), None);
    composer.restore_draft();
    assert_eq!(composer.input(), "");
}

#[test]
fn characters_come_and_go_at_the_end() {
    let mut composer = Composer::new();
    composer.pop_char();
    assert_eq!(composer.input(), "");
    type_in(&mut composer, "añ你");
    assert_eq!(composer.input(), "añ你");
    composer.pop_char();
    assert_eq!(composer.input(), "añ");
    composer.pop_char();
    composer.pop_char();
    composer.pop_char();
    assert_eq!(composer.input(), "");
}
