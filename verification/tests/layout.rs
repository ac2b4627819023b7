use llm_tui::layout::{count_lines, split_words, wrap_lines, wrap_rows, wrap_text};
use llm_tui::text::{
    chars_of, copy_range, is_space_char, join, push_all, same_text, string_of, utf8_len_of,
    width_of,
};

/// Word wrap written with the iterators of std, to hold the library against.
fn wrap_with_std(text: &str, width: usize) -> String {
    let mut wrapped = String::new();
    for line in text.lines() {
        let mut current = String::new();
        for word in line.split_whitespace() {
            if current.len() + word.len() + 1 > width {
                if !current.is_empty() {
                    wrapped.push_str(&current);
                    wrapped.push('\n');
                    current.clear();
                }
                if word.len() > width {
                    let mut chars = word.chars().peekable();
                    while chars.peek().is_some() {
                        let chunk: String = chars.by_ref().take(width).collect();
                        wrapped.push_str(&chunk);
                        wrapped.push('\n');
                    }
                } else {
                    current = word.to_string();
                }
            } else {
                if !current.is_empty() {
                    current.push(' ');
                }
                current.push_str(word);
            }
        }
        if !current.is_empty() {
            wrapped.push_str(&current);
            wrapped.push('\n');
        }
    }
    wrapped
}

fn samples() -> Vec<&'static str> {
    vec![
        "",
        " ",
        "\n",
        "\n\n\n",
        "a",
        "a\n",
        "hello world",
        "the quick brown fox jumps over the lazy dog",
        "  leading and   inner   spaces  ",
        "tabs\tand\u{a0}odd\u{3000}spaces",
        "line one\nline two\n\nline four",
        "windows\r\nline ends\r\n",
        "a bare\rreturn",
        "supercalifragilisticexpialidocious",
        "short supercalifragilisticexpialidocious short",
        "你好，世界！这是一个没有空格的长句子",
        "混合 text 与 中文 words",
        "é è ê ë ē",
        "𝄞𝄞𝄞𝄞𝄞 clef",
        "x yz abc defg hijkl mnopqr",
    ]
}

#[test]
fn wrap_agrees_with_std_iterators() {
    for text in samples() {
        for width in 1..40 {
            assert_eq!(wrap_text(text, width), wrap_with_std(text, width), "{:?} at {}", text, width);
        }
    }
}

#[test]
fn wrap_lines_are_the_lines_of_wrap_text() {
    for text in samples() {
        for width in 1..40 {
            let joined: String = wrap_lines(text, width).iter().map(|l| format!("{}\n", l)).collect();
            assert_eq!(joined, wrap_text(text, width));
        }
    }
}

#[test]
fn every_line_is_within_the_width() {
    for text in samples() {
        for width in 1..40 {
            for line in wrap_lines(text, width) {
                let columns = line.chars().count();
                assert!(1 <= columns && columns <= width, "{:?} at {}", line, width);
            }
        }
    }
}

#[test]
fn wrapping_changes_nothing_but_whitespace() {
    for text in samples() {
        for width in 1..40 {
            let before: String = text.chars().filter(|c| !c.is_whitespace()).collect();
            let after: String =
                wrap_text(text, width).chars().filter(|c| !c.is_whitespace()).collect();
            assert_eq!(after, before);
        }
    }
}

#[test]
fn wrap_breaks_at_whitespace() {
    assert_eq!(wrap_text("the quick brown fox", 10), "the quick\nbrown fox\n");
    assert_eq!(wrap_lines("the quick brown fox", 9), vec!["the quick", "brown fox"]);
    assert_eq!(wrap_lines("the quick brown fox", 8), vec!["the", "quick", "brown", "fox"]);
}

#[test]
fn wrap_fills_a_line_to_the_last_column() {
    assert_eq!(wrap_lines("abcd efgh", 9), vec!["abcd efgh"]);
    assert_eq!(wrap_lines("abcd efgh", 8), vec!["abcd", "efgh"]);
    assert_eq!(wrap_lines("abcd", 4), vec!["abcd"]);
}

#[test]
fn wrap_splits_a_long_token_into_chunks() {
    assert_eq!(wrap_lines("abcdefghij", 4), vec!["abcd", "efgh", "ij"]);
    assert_eq!(wrap_lines("abcdefgh", 4), vec!["abcd", "efgh"]);
    assert_eq!(wrap_lines("ab abcdefghij cd", 4), vec!["ab", "abcd", "efgh", "ij", "cd"]);
    assert_eq!(wrap_lines("abc", 1), vec!["a", "b", "c"]);
}

#[test]
fn wrap_keeps_line_feeds_as_breaks() {
    assert_eq!(wrap_lines("one two\nthree", 80), vec!["one two", "three"]);
    assert_eq!(wrap_text("one\n\n\ntwo\n", 80), "one\ntwo\n");
}

#[test]
fn wrap_of_nothing_is_nothing() {
    assert_eq!(wrap_text("", 10), "");
    assert_eq!(wrap_text("   \n \t ", 10), "");
    assert!(wrap_lines("", 1).is_empty());
}

#[test]
fn wrap_measures_lines_in_bytes_and_cuts_in_characters() {
    // Each of these characters takes three bytes.
    assert_eq!(wrap_lines("你好 世界", 7), vec!["你好", "世界"]);
    assert_eq!(wrap_lines("你好 世界", 13), vec!["你好 世界"]);
    assert_eq!(wrap_lines("你好世界", 3), vec!["你好世", "界"]);
    assert_eq!(wrap_lines("你好", 5), vec!["你好"]);
}

#[test]
fn wrap_rows_works_on_characters() {
    let text: Vec<char> = "ab cd".chars().collect();
    let rows = wrap_rows(&text, 2);
    assert_eq!(rows, vec![vec!['a', 'b'], vec!['c', 'd']]);
}

#[test]
fn words_are_runs_without_whitespace() {
    let text: Vec<char> = "  ab\tcd \u{2003}e  ".chars().collect();
    assert_eq!(split_words(&text), vec![vec!['a', 'b'], vec!['c', 'd'], vec!['e']]);
    assert!(split_words(&Vec::new()).is_empty());
}

#[test]
fn whitespace_agrees_with_std() {
    let mut code: u32 = 0;
    while code <= 0x10FFFF {
        if let Some(c) = char::from_u32(code) {
            assert_eq!(is_space_char(c), c.is_whitespace());
        }
        code += 1;
    }
}

#[test]
fn widths_agree_with_std() {
    let mut code: u32 = 0;
    while code <= 0x10FFFF {
        if let Some(c) = char::from_u32(code) {
            assert_eq!(width_of(c) as usize, c.len_utf8());
        }
        code += 1;
    }
    for text in samples() {
        assert_eq!(utf8_len_of(&chars_of(text)), text.len() as u128);
    }
}

#[test]
fn line_counts_agree_with_std() {
    for text in samples() {
        assert_eq!(count_lines(&chars_of(text)), text.lines().count(), "{:?}", text);
    }
    assert_eq!(count_lines(&chars_of("a\n\nb")), 3);
    assert_eq!(count_lines(&chars_of("a\n\n")), 2);
    assert_eq!(count_lines(&chars_of("")), 0);
}

#[test]
fn strings_and_characters_convert_both_ways() {
    for text in samples() {
        assert_eq!(chars_of(text), text.chars().collect::<Vec<char>>());
        assert_eq!(string_of(&chars_of(text)), text);
    }
    assert_eq!(join("ab", "cd"), "abcd");
    assert_eq!(copy_range(&chars_of("abcdef"), 2, 4), vec!['c', 'd']);
    let mut left = chars_of("ab");
    push_all(&mut left, &chars_of("cd"));
    assert_eq!(left, vec!['a', 'b', 'c', 'd']);
}

#[test]
fn same_text_compares_characters() {
    assert!(same_text("", ""));
    assert!(same_text("abc", "abc"));
    assert!(!same_text("abc", "abd"));
    assert!(!same_text("abc", "ab"));
    assert!(same_text("等待", "等待"));
}
