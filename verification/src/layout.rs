//! Word wrap: text laid out in lines of a bounded width.
//!
//! A text is cut at every line feed; within each piece, maximal runs of
//! characters other than whitespace are its words. Words are put on a line,
//! one space apart, for as long as the line's UTF-8 bytes stay within the
//! width. A word of more bytes than the width is cut into pieces of `width`
//! characters, each on a line of its own.

use crate::text::{
    chars_of, copy_range, is_space, is_space_char, lemma_utf8_len_bounds,
    lemma_utf8_len_concat, push_all, rows, string_of, texts, utf8_len, utf8_len_of,
};
use vstd::prelude::*;

verus! {

/// The first position at or after `i` that holds no whitespace, or the
/// length of `s` where only whitespace follows.
pub open spec fn word_start(s: Seq<char>, i: int) -> int
    decreases s.len() - i,
{
    if 0 <= i < s.len() && is_space(s[i]) {
        word_start(s, i + 1)
    } else {
        i
    }
}

/// The first position at or after `i` that holds whitespace, or the length
/// of `s` where none follows.
pub open spec fn word_end(s: Seq<char>, i: int) -> int
    decreases s.len() - i,
{
    if 0 <= i < s.len() && !is_space(s[i]) {
        word_end(s, i + 1)
    } else {
        i
    }
}

/// The words of `s` that begin at or after position `i`.
pub open spec fn words_from(s: Seq<char>, i: int) -> Seq<Seq<char>>
    decreases s.len() - i,
{
    let start = word_start(s, i);
    let end = word_end(s, start);
    if i <= start < end <= s.len() {
        seq![s.subrange(start, end)] + words_from(s, end)
    } else {
        Seq::empty()
    }
}

/// The words of `s`: its maximal runs of characters other than whitespace.
pub open spec fn words(s: Seq<char>) -> Seq<Seq<char>> {
    words_from(s, 0)
}

/// `word_start` stays within `s`, passes only whitespace and stops before a
/// character that is none.
pub proof fn lemma_word_start(s: Seq<char>, i: int)
    requires
        0 <= i <= s.len(),
    ensures
        i <= word_start(s, i) <= s.len(),
        forall|j: int| i <= j < word_start(s, i) ==> is_space(s[j]),
        word_start(s, i) < s.len() ==> !is_space(s[word_start(s, i)]),
    decreases s.len() - i,
{
    if i < s.len() && is_space(s[i]) {
        lemma_word_start(s, i + 1);
    }
}

/// `word_end` stays within `s`, passes no whitespace and stops before
/// whitespace.
pub proof fn lemma_word_end(s: Seq<char>, i: int)
    requires
        0 <= i <= s.len(),
    ensures
        i <= word_end(s, i) <= s.len(),
        forall|j: int| i <= j < word_end(s, i) ==> !is_space(s[j]),
        word_end(s, i) < s.len() ==> is_space(s[word_end(s, i)]),
        i < s.len() && !is_space(s[i]) ==> i < word_end(s, i),
    decreases s.len() - i,
{
    if i < s.len() && !is_space(s[i]) {
        lemma_word_end(s, i + 1);
    }
}

/// Every word holds at least one character, and no whitespace.
pub proof fn lemma_words_from(s: Seq<char>, i: int)
    requires
        0 <= i <= s.len(),
    ensures
        forall|k: int|
            0 <= k < words_from(s, i).len() ==> (#[trigger] words_from(s, i)[k]).len() > 0,
        forall|k: int, j: int|
            0 <= k < words_from(s, i).len() && 0 <= j < words_from(s, i)[k].len() ==> !is_space(
                #[trigger] words_from(s, i)[k][j],
            ),
    decreases s.len() - i,
{
    let start = word_start(s, i);
    let end = word_end(s, start);
    lemma_word_start(s, i);
    if start < s.len() {
        lemma_word_end(s, start);
        lemma_words_from(s, end);
        let head = s.subrange(start, end);
        let tail = words_from(s, end);
        assert(words_from(s, i) == seq![head] + tail);
        assert forall|k: int| 0 <= k < words_from(s, i).len() implies (#[trigger] words_from(
            s,
            i,
        )[k]).len() > 0 by {
            if k > 0 {
                assert(words_from(s, i)[k] == tail[k - 1]);
            }
        }
        assert forall|k: int, j: int|
            0 <= k < words_from(s, i).len() && 0 <= j < words_from(s, i)[k].len() implies !is_space(
            #[trigger] words_from(s, i)[k][j],
        ) by {
            if k > 0 {
                assert(words_from(s, i)[k] == tail[k - 1]);
            } else {
                assert(head[j] == s[start + j]);
            }
        }
    }
}

/// Cuts `v` into its words.
pub fn split_words(v: &Vec<char>) -> (out: Vec<Vec<char>>)
    ensures
        rows(out@) == words(v@),
{
    let mut out: Vec<Vec<char>> = Vec::new();
    let mut i: usize = 0;
    let len = v.len();
    assert(rows(out@) =~= Seq::<Seq<char>>::empty());
    loop
        invariant
            len == v.len(),
            i <= len,
            rows(out@) + words_from(v@, i as int) == words(v@),
        ensures
            rows(out@) == words(v@),
        decreases len - i,
    {
        let mut start: usize = i;
        while start < len && is_space_char(v[start])
            invariant
                len == v.len(),
                i <= start <= len,
                word_start(v@, start as int) == word_start(v@, i as int),
            decreases len - start,
        {
            start += 1;
        }
        assert(word_start(v@, i as int) == start);
        if start >= len {
            break ;
        }
        let mut end: usize = start;
        while end < len && !is_space_char(v[end])
            invariant
                len == v.len(),
                start <= end <= len,
                word_end(v@, end as int) == word_end(v@, start as int),
            decreases len - end,
        {
            end += 1;
        }
        assert(word_end(v@, start as int) == end);
        assert(start < end);
        let word = copy_range(v, start, end);
        proof {
            assert(rows(out@.push(word)) =~= rows(out@) + seq![word@]);
        }
        out.push(word);
        i = end;
    }
    out
}

/// `word` cut into pieces of `width` characters; the last piece holds what
/// is left, at least one character.
pub open spec fn chunks(word: Seq<char>, width: nat) -> Seq<Seq<char>>
    decreases word.len(),
{
    if width == 0 || word.len() == 0 {
        Seq::empty()
    } else if word.len() <= width {
        seq![word]
    } else {
        seq![word.take(width as int)] + chunks(word.skip(width as int), width)
    }
}

/// A line as it is handed out: nothing where the line holds no character.
pub open spec fn flushed(line: Seq<char>) -> Seq<Seq<char>> {
    if line.len() > 0 {
        seq![line]
    } else {
        Seq::empty()
    }
}

/// The lines that `words` fill after the line `line` that is being filled.
///
/// A word joins the line where the line, a space and the word stay within
/// `width` bytes. Else the line is handed out, and the word begins the next
/// line, or is cut into pieces where it alone has more than `width` bytes.
pub open spec fn fill(words: Seq<Seq<char>>, width: nat, line: Seq<char>) -> Seq<Seq<char>>
    decreases words.len(),
{
    if words.len() == 0 {
        flushed(line)
    } else {
        let word = words.first();
        let rest = words.drop_first();
        if utf8_len(line) + utf8_len(word) + 1 > width {
            if utf8_len(word) > width {
                flushed(line) + chunks(word, width) + fill(rest, width, Seq::empty())
            } else {
                flushed(line) + fill(rest, width, word)
            }
        } else if line.len() == 0 {
            fill(rest, width, word)
        } else {
            fill(rest, width, line + seq![' '] + word)
        }
    }
}

/// The first position at or after `i` that holds a line feed, or the length
/// of `s` where none follows.
pub open spec fn line_end(s: Seq<char>, i: int) -> int
    decreases s.len() - i,
{
    if 0 <= i < s.len() && s[i] != '\n' {
        line_end(s, i + 1)
    } else {
        i
    }
}

/// The lines that the part of `text` from position `i` on is laid out in.
pub open spec fn wrapped_from(text: Seq<char>, i: int, width: nat) -> Seq<Seq<char>>
    decreases text.len() - i,
{
    let end = line_end(text, i);
    if 0 <= i <= end < text.len() {
        fill(words(text.subrange(i, end)), width, Seq::empty()) + wrapped_from(
            text,
            end + 1,
            width,
        )
    } else if 0 <= i < end == text.len() {
        fill(words(text.subrange(i, end)), width, Seq::empty())
    } else {
        Seq::empty()
    }
}

/// The lines that `text` is laid out in at `width` columns.
pub open spec fn wrapped(text: Seq<char>, width: nat) -> Seq<Seq<char>> {
    wrapped_from(text, 0, width)
}

/// The lines one after another, each followed by a line feed.
pub open spec fn joined(lines: Seq<Seq<char>>) -> Seq<char>
    decreases lines.len(),
{
    if lines.len() == 0 {
        Seq::empty()
    } else {
        joined(lines.drop_last()) + lines.last() + seq!['\n']
    }
}

/// `line_end` stays within `s`.
pub proof fn lemma_line_end(s: Seq<char>, i: int)
    requires
        0 <= i <= s.len(),
    ensures
        i <= line_end(s, i) <= s.len(),
        forall|j: int| i <= j < line_end(s, i) ==> s[j] != '\n',
        line_end(s, i) < s.len() ==> s[line_end(s, i)] == '\n',
    decreases s.len() - i,
{
    if i < s.len() && s[i] != '\n' {
        lemma_line_end(s, i + 1);
    }
}

/// Cuts `word` into pieces of `width` characters and adds them to `out`.
fn push_chunks(out: &mut Vec<Vec<char>>, word: &Vec<char>, width: usize)
    requires
        width >= 1,
    ensures
        rows(final(out)@) == rows(old(out)@) + chunks(word@, width as nat),
{
    let len = word.len();
    let mut pos: usize = 0;
    assert(word@.skip(0) =~= word@);
    while pos < len
        invariant
            len == word.len(),
            pos <= len,
            width >= 1,
            rows(out@) + chunks(word@.skip(pos as int), width as nat) == rows(old(out)@) + chunks(
                word@,
                width as nat,
            ),
        decreases len - pos,
    {
        let next: usize = if len - pos <= width {
            len
        } else {
            pos + width
        };
        let piece = copy_range(word, pos, next);
        proof {
            let left = word@.skip(pos as int);
            if len - pos <= width {
                assert(piece@ =~= left);
                assert(word@.skip(next as int).len() == 0);
            } else {
                assert(piece@ =~= left.take(width as int));
                assert(word@.skip(next as int) =~= left.skip(width as int));
            }
            assert(chunks(left, width as nat) =~= seq![piece@] + chunks(
                word@.skip(next as int),
                width as nat,
            ));
            assert(rows(out@.push(piece)) =~= rows(out@) + seq![piece@]);
        }
        out.push(piece);
        pos = next;
    }
}

/// Lays `words` out in lines of at most `width` bytes, longer words cut
/// into pieces of `width` characters, and adds the lines to `out`.
fn fill_lines(out: &mut Vec<Vec<char>>, words: &Vec<Vec<char>>, width: usize)
    requires
        width >= 1,
    ensures
        rows(final(out)@) == rows(old(out)@) + fill(rows(words@), width as nat, Seq::empty()),
{
    let mut line: Vec<char> = Vec::new();
    let mut line_bytes: u128 = 0;
    let mut k: usize = 0;
    assert(rows(words@).skip(0) =~= rows(words@));
    while k < words.len()
        invariant
            k <= words.len(),
            width >= 1,
            line_bytes == utf8_len(line@),
            rows(out@) + fill(rows(words@).skip(k as int), width as nat, line@) == rows(old(out)@)
                + fill(rows(words@), width as nat, Seq::empty()),
        decreases words.len() - k,
    {
        let word = &words[k];
        let word_bytes = utf8_len_of(word);
        let ghost before = rows(out@);
        let ghost line_before = line@;
        let ghost rest = rows(words@).skip(k + 1);
        proof {
            let left = rows(words@).skip(k as int);
            assert(left.first() == word@);
            assert(left.drop_first() =~= rest);
            lemma_utf8_len_bounds(line@);
            lemma_utf8_len_bounds(word@);
            assert(line_bytes <= 4 * line.len() && word_bytes <= 4 * word.len());
        }
        if line_bytes + word_bytes + 1 > width as u128 {
            if line.len() > 0 {
                proof {
                    assert(rows(out@.push(line)) =~= rows(out@) + seq![line@]);
                }
                out.push(line);
                line = Vec::new();
                line_bytes = 0;
            }
            assert(rows(out@) =~= before + flushed(line_before));
            if word_bytes > width as u128 {
                push_chunks(out, word, width);
                assert(rows(out@) + fill(rest, width as nat, line@) =~= before + (flushed(
                    line_before,
                ) + chunks(word@, width as nat) + fill(rest, width as nat, Seq::empty())));
            } else {
                push_all(&mut line, word);
                assert(line@ =~= word@);
                line_bytes = word_bytes;
                assert(rows(out@) + fill(rest, width as nat, line@) =~= before + (flushed(
                    line_before,
                ) + fill(rest, width as nat, word@)));
            }
        } else {
            if line.len() > 0 {
                proof {
                    lemma_utf8_len_concat(line@, seq![' ']);
                    lemma_utf8_len_concat(line@ + seq![' '], word@);
                    assert(seq![' '].drop_last() =~= Seq::<char>::empty());
                    assert(utf8_len(seq![' ']) == 1);
                    assert(line@.push(' ') =~= line@ + seq![' ']);
                }
                line.push(' ');
                line_bytes = line_bytes + 1;
            } else {
                assert(line@ + word@ =~= word@);
                proof {
                    lemma_utf8_len_concat(line@, word@);
                }
            }
            push_all(&mut line, word);
            line_bytes = line_bytes + word_bytes;
        }
        k += 1;
    }
    if line.len() > 0 {
        proof {
            assert(rows(out@.push(line)) =~= rows(out@) + seq![line@]);
        }
        out.push(line);
    }
}

/// Lays `text` out in lines of at most `width` columns.
pub fn wrap_rows(text: &Vec<char>, width: usize) -> (out: Vec<Vec<char>>)
    requires
        width >= 1,
    ensures
        rows(out@) == wrapped(text@, width as nat),
{
    let mut out: Vec<Vec<char>> = Vec::new();
    let len = text.len();
    let mut i: usize = 0;
    assert(rows(out@) =~= Seq::<Seq<char>>::empty());
    while i < len
        invariant
            len == text.len(),
            i <= len,
            width >= 1,
            rows(out@) + wrapped_from(text@, i as int, width as nat) == wrapped(
                text@,
                width as nat,
            ),
        decreases len - i,
    {
        let mut end: usize = i;
        while end < len && text[end] != '\n'
            invariant
                len == text.len(),
                i <= end <= len,
                line_end(text@, end as int) == line_end(text@, i as int),
            decreases len - end,
        {
            end += 1;
        }
        assert(line_end(text@, i as int) == end);
        let ghost before = rows(out@);
        let piece = copy_range(text, i, end);
        let found = split_words(&piece);
        fill_lines(&mut out, &found, width);
        proof {
            let lines = fill(words(text@.subrange(i as int, end as int)), width as nat, Seq::empty());
            assert(rows(out@) == before + lines);
            if end < len {
                assert(rows(out@) + wrapped_from(text@, end + 1, width as nat) =~= before + (lines
                    + wrapped_from(text@, end + 1, width as nat)));
            } else {
                assert(wrapped_from(text@, end as int, width as nat) =~= Seq::<Seq<char>>::empty());
                assert(rows(out@) + wrapped_from(text@, end as int, width as nat) =~= before
                    + lines);
            }
        }
        i = if end < len {
            end + 1
        } else {
            end
        };
    }
    assert(wrapped_from(text@, i as int, width as nat) =~= Seq::<Seq<char>>::empty());
    assert(rows(out@) + Seq::<Seq<char>>::empty() =~= rows(out@));
    out
}

/// Every piece of a word holds at least one character and at most `width`,
/// and every piece but the last holds exactly `width`.
pub proof fn lemma_chunks(word: Seq<char>, width: nat)
    requires
        width >= 1,
    ensures
        forall|j: int|
            0 <= j < chunks(word, width).len() ==> 1 <= (#[trigger] chunks(word, width)[j]).len()
                <= width,
        forall|j: int|
            0 <= j < chunks(word, width).len() - 1 ==> (#[trigger] chunks(word, width)[j]).len()
                == width,
        word.len() > 0 ==> chunks(word, width).len() > 0,
    decreases word.len(),
{
    if word.len() > width {
        let tail = chunks(word.skip(width as int), width);
        lemma_chunks(word.skip(width as int), width);
        assert forall|j: int| 0 <= j < chunks(word, width).len() implies 1 <= (#[trigger] chunks(
            word,
            width,
        )[j]).len() <= width by {
            if j > 0 {
                assert(chunks(word, width)[j] == tail[j - 1]);
            }
        }
        assert forall|j: int| 0 <= j < chunks(word, width).len() - 1 implies (#[trigger] chunks(
            word,
            width,
        )[j]).len() == width by {
            if j > 0 {
                assert(chunks(word, width)[j] == tail[j - 1]);
            }
        }
    }
}

/// Whether every line of `lines` holds at least one character and at most
/// `width`.
pub open spec fn lines_fit(lines: Seq<Seq<char>>, width: nat) -> bool {
    forall|j: int| 0 <= j < lines.len() ==> 1 <= (#[trigger] lines[j]).len() <= width
}

/// Lines that fit, followed by lines that fit, fit.
pub proof fn lemma_lines_fit_concat(a: Seq<Seq<char>>, b: Seq<Seq<char>>, width: nat)
    requires
        lines_fit(a, width),
        lines_fit(b, width),
    ensures
        lines_fit(a + b, width),
{
    assert forall|j: int| 0 <= j < (a + b).len() implies 1 <= (#[trigger] (a + b)[j]).len()
        <= width by {
        if j < a.len() {
            assert((a + b)[j] == a[j]);
        } else {
            assert((a + b)[j] == b[j - a.len()]);
        }
    }
}

/// Words that hold a character each fill lines that hold at least one
/// character and at most `width`, when the line being filled is within
/// `width` bytes.
pub proof fn lemma_fill_fits(words: Seq<Seq<char>>, width: nat, line: Seq<char>)
    requires
        width >= 1,
        utf8_len(line) <= width,
        forall|k: int| 0 <= k < words.len() ==> (#[trigger] words[k]).len() > 0,
    ensures
        lines_fit(fill(words, width, line), width),
    decreases words.len(),
{
    lemma_utf8_len_bounds(line);
    assert(lines_fit(flushed(line), width));
    if words.len() > 0 {
        let word = words.first();
        let rest = words.drop_first();
        assert forall|k: int| 0 <= k < rest.len() implies (#[trigger] rest[k]).len() > 0 by {
            assert(rest[k] == words[k + 1]);
        }
        lemma_utf8_len_bounds(word);
        if utf8_len(line) + utf8_len(word) + 1 > width {
            if utf8_len(word) > width {
                lemma_chunks(word, width);
                assert(utf8_len(Seq::<char>::empty()) == 0);
                lemma_fill_fits(rest, width, Seq::empty());
                lemma_lines_fit_concat(flushed(line), chunks(word, width), width);
                lemma_lines_fit_concat(
                    flushed(line) + chunks(word, width),
                    fill(rest, width, Seq::empty()),
                    width,
                );
            } else {
                lemma_fill_fits(rest, width, word);
                lemma_lines_fit_concat(flushed(line), fill(rest, width, word), width);
            }
        } else if line.len() == 0 {
            lemma_fill_fits(rest, width, word);
        } else {
            lemma_utf8_len_concat(line, seq![' ']);
            lemma_utf8_len_concat(line + seq![' '], word);
            assert(seq![' '].drop_last() =~= Seq::<char>::empty());
            assert(utf8_len(seq![' ']) == 1);
            lemma_fill_fits(rest, width, line + seq![' '] + word);
        }
    }
}

/// Every line that a text is laid out in holds at least one character and
/// at most `width`.
pub proof fn lemma_wrapped_from_fits(text: Seq<char>, i: int, width: nat)
    requires
        width >= 1,
        0 <= i <= text.len(),
    ensures
        lines_fit(wrapped_from(text, i, width), width),
    decreases text.len() - i,
{
    let end = line_end(text, i);
    lemma_line_end(text, i);
    if i < text.len() {
        let piece = text.subrange(i, end);
        lemma_words_from(piece, 0);
        assert(utf8_len(Seq::<char>::empty()) == 0);
        lemma_fill_fits(words(piece), width, Seq::empty());
        if end < text.len() {
            lemma_wrapped_from_fits(text, end + 1, width);
            lemma_lines_fit_concat(
                fill(words(piece), width, Seq::empty()),
                wrapped_from(text, end + 1, width),
                width,
            );
        }
    }
}

/// Every line that a text is laid out in holds at least one character and
/// at most `width`, whatever the text.
pub proof fn lemma_wrapped_fits(text: Seq<char>, width: nat)
    requires
        width >= 1,
    ensures
        lines_fit(wrapped(text, width), width),
{
    lemma_wrapped_from_fits(text, 0, width);
}

/// Lays `text` out in lines of at most `width` columns: its words in
/// order, one space apart, a line feed of `text` ending the line, and a
/// word of more than `width` bytes cut into pieces of `width` characters.
pub fn wrap_lines(text: &str, width: usize) -> (lines: Vec<String>)
    requires
        width >= 1,
    ensures
        texts(lines@) == wrapped(text@, width as nat),
        forall|j: int| 0 <= j < lines.len() ==> 1 <= (#[trigger] lines[j])@.len() <= width,
{
    let chars = chars_of(text);
    let found = wrap_rows(&chars, width);
    let mut lines: Vec<String> = Vec::new();
    let mut k: usize = 0;
    while k < found.len()
        invariant
            k <= found.len(),
            lines.len() == k,
            forall|j: int| 0 <= j < k ==> (#[trigger] lines[j])@ == found[j]@,
        decreases found.len() - k,
    {
        lines.push(string_of(&found[k]));
        k += 1;
    }
    proof {
        assert(texts(lines@) =~= rows(found@));
        lemma_wrapped_fits(text@, width as nat);
        assert forall|j: int| 0 <= j < lines.len() implies 1 <= (#[trigger] lines[j])@.len()
            <= width by {
            assert(lines[j]@ == wrapped(text@, width as nat)[j]);
        }
    }
    lines
}

/// Lays `text` out as `wrap_lines` does and hands the lines out in one
/// string, a line feed after each.
pub fn wrap_text(text: &str, width: usize) -> (out: String)
    requires
        width >= 1,
    ensures
        out@ == joined(wrapped(text@, width as nat)),
{
    let chars = chars_of(text);
    let found = wrap_rows(&chars, width);
    let mut flat: Vec<char> = Vec::new();
    let mut k: usize = 0;
    assert(rows(found@).take(0) =~= Seq::<Seq<char>>::empty());
    while k < found.len()
        invariant
            k <= found.len(),
            flat@ == joined(rows(found@).take(k as int)),
        decreases found.len() - k,
    {
        proof {
            let upto = rows(found@).take(k + 1);
            assert(upto.drop_last() =~= rows(found@).take(k as int));
            assert(upto.last() == found[k as int]@);
        }
        push_all(&mut flat, &found[k]);
        flat.push('\n');
        assert(flat@ =~= joined(rows(found@).take(k as int)) + found[k as int]@ + seq!['\n']);
        k += 1;
    }
    assert(rows(found@).take(found.len() as int) =~= rows(found@));
    string_of(&flat)
}

/// The number of line feeds in `s`.
pub open spec fn line_feeds(s: Seq<char>) -> nat
    decreases s.len(),
{
    if s.len() == 0 {
        0
    } else if s.last() == '\n' {
        line_feeds(s.drop_last()) + 1
    } else {
        line_feeds(s.drop_last())
    }
}

/// The number of lines that `s` is shown in: one for each line feed, and
/// one more for characters after the last of them.
pub open spec fn line_count(s: Seq<char>) -> nat {
    if s.len() > 0 && s.last() != '\n' {
        line_feeds(s) + 1
    } else {
        line_feeds(s)
    }
}

/// A text has at most as many line feeds as characters.
pub proof fn lemma_line_feeds_bound(s: Seq<char>)
    ensures
        line_feeds(s) <= s.len(),
    decreases s.len(),
{
    if s.len() > 0 {
        lemma_line_feeds_bound(s.drop_last());
    }
}

/// Counts the lines that `text` is shown in.
pub fn count_lines(text: &Vec<char>) -> (n: usize)
    ensures
        n == line_count(text@),
{
    let len = text.len();
    let mut feeds: usize = 0;
    let mut i: usize = 0;
    while i < len
        invariant
            len == text.len(),
            i <= len,
            feeds == line_feeds(text@.take(i as int)),
            feeds <= i,
        decreases len - i,
    {
        assert(text@.take(i + 1).drop_last() =~= text@.take(i as int));
        if text[i] == '\n' {
            feeds += 1;
        }
        i += 1;
    }
    assert(text@.take(len as int) =~= text@);
    if len > 0 && text[len - 1] != '\n' {
        proof {
            lemma_line_feeds_bound(text@.drop_last());
        }
        feeds + 1
    } else {
        feeds
    }
}

/// The characters of `s` that are no whitespace, in order.
pub open spec fn solid(s: Seq<char>) -> Seq<char>
    decreases s.len(),
{
    if s.len() == 0 {
        Seq::empty()
    } else if is_space(s.last()) {
        solid(s.drop_last())
    } else {
        solid(s.drop_last()).push(s.last())
    }
}

/// The lines one after another, with nothing between them.
pub open spec fn flat(lines: Seq<Seq<char>>) -> Seq<char>
    decreases lines.len(),
{
    if lines.len() == 0 {
        Seq::empty()
    } else {
        flat(lines.drop_last()) + lines.last()
    }
}

/// What is no whitespace in a concatenation is what is none in its parts.
pub proof fn lemma_solid_concat(a: Seq<char>, b: Seq<char>)
    ensures
        solid(a + b) == solid(a) + solid(b),
    decreases b.len(),
{
    if b.len() == 0 {
        assert(a + b =~= a);
        assert(solid(a) + solid(b) =~= solid(a));
    } else {
        lemma_solid_concat(a, b.drop_last());
        assert((a + b).drop_last() =~= a + b.drop_last());
        assert((a + b).last() == b.last());
        if is_space(b.last()) {
        } else {
            assert((solid(a) + solid(b.drop_last())).push(b.last()) =~= solid(a) + solid(
                b.drop_last(),
            ).push(b.last()));
        }
    }
}

/// Nothing of a run of whitespace is left, and all of a run without any.
pub proof fn lemma_solid_run(s: Seq<char>)
    ensures
        (forall|j: int| 0 <= j < s.len() ==> is_space(#[trigger] s[j])) ==> solid(s)
            == Seq::<char>::empty(),
        (forall|j: int| 0 <= j < s.len() ==> !is_space(#[trigger] s[j])) ==> solid(s) == s,
    decreases s.len(),
{
    if s.len() > 0 {
        lemma_solid_run(s.drop_last());
        let front = s.drop_last();
        if forall|j: int| 0 <= j < s.len() ==> is_space(#[trigger] s[j]) {
            assert forall|j: int| 0 <= j < front.len() implies is_space(#[trigger] front[j]) by {
                assert(front[j] == s[j]);
            }
            assert(is_space(s[s.len() - 1]));
        }
        if forall|j: int| 0 <= j < s.len() ==> !is_space(#[trigger] s[j]) {
            assert forall|j: int| 0 <= j < front.len() implies !is_space(#[trigger] front[j]) by {
                assert(front[j] == s[j]);
            }
            assert(!is_space(s[s.len() - 1]));
            assert(front.push(s.last()) =~= s);
        }
    }
}

/// Lines after lines, put together, are the first put together and then
/// the second.
pub proof fn lemma_flat_concat(a: Seq<Seq<char>>, b: Seq<Seq<char>>)
    ensures
        flat(a + b) == flat(a) + flat(b),
    decreases b.len(),
{
    if b.len() == 0 {
        assert(a + b =~= a);
        assert(flat(a) + flat(b) =~= flat(a));
    } else {
        lemma_flat_concat(a, b.drop_last());
        assert((a + b).drop_last() =~= a + b.drop_last());
        assert((a + b).last() == b.last());
        assert(flat(a) + flat(b.drop_last()) + b.last() =~= flat(a) + (flat(b.drop_last())
            + b.last()));
    }
}

/// One line put together is that line; none is nothing.
pub proof fn lemma_flat_one(line: Seq<char>)
    ensures
        flat(seq![line]) == line,
        flat(flushed(line)) == line,
        flat(Seq::<Seq<char>>::empty()) == Seq::<char>::empty(),
{
    let none = Seq::<Seq<char>>::empty();
    assert(flat(none) =~= Seq::<char>::empty());
    assert(seq![line].drop_last() =~= none);
    assert(seq![line].last() == line);
    assert(flat(seq![line]) =~= flat(none) + line);
    assert(flat(seq![line]) =~= line);
    if line.len() == 0 {
        assert(flat(flushed(line)) =~= line);
    }
}

/// The words of a text, put together, are what of it is no whitespace.
pub proof fn lemma_words_are_solid(s: Seq<char>, i: int)
    requires
        0 <= i <= s.len(),
    ensures
        flat(words_from(s, i)) == solid(s.subrange(i, s.len() as int)),
    decreases s.len() - i,
{
    let len = s.len() as int;
    let start = word_start(s, i);
    lemma_word_start(s, i);
    let gap = s.subrange(i, start);
    lemma_solid_run(gap);
    assert(solid(gap) == Seq::<char>::empty()) by {
        assert forall|j: int| 0 <= j < gap.len() implies is_space(#[trigger] gap[j]) by {
            assert(gap[j] == s[i + j]);
        }
    }
    if start < len {
        let end = word_end(s, start);
        lemma_word_end(s, start);
        let word = s.subrange(start, end);
        lemma_solid_run(word);
        assert(solid(word) == word) by {
            assert forall|j: int| 0 <= j < word.len() implies !is_space(#[trigger] word[j]) by {
                assert(word[j] == s[start + j]);
            }
        }
        lemma_words_are_solid(s, end);
        let rest = s.subrange(end, len);
        assert(s.subrange(i, len) =~= gap + (word + rest));
        lemma_solid_concat(gap, word + rest);
        lemma_solid_concat(word, rest);
        lemma_flat_one(word);
        lemma_flat_concat(seq![word], words_from(s, end));
        assert(solid(gap) + (word + solid(rest)) =~= word + solid(rest));
    } else {
        assert(s.subrange(i, len) =~= gap);
        lemma_flat_one(Seq::empty());
    }
}

/// The pieces that a word is cut into, put together, are the word.
pub proof fn lemma_chunks_flat(word: Seq<char>, width: nat)
    requires
        width >= 1,
    ensures
        flat(chunks(word, width)) == word,
    decreases word.len(),
{
    lemma_flat_one(word);
    if word.len() > width {
        let head = word.take(width as int);
        let tail = word.skip(width as int);
        lemma_chunks_flat(tail, width);
        lemma_flat_one(head);
        lemma_flat_concat(seq![head], chunks(tail, width));
        assert(head + tail =~= word);
    } else if word.len() == 0 {
        assert(word =~= Seq::<char>::empty());
    }
}

/// The lines that words fill hold, but for whitespace, what the line
/// being filled holds and then the words.
pub proof fn lemma_fill_is_solid(words: Seq<Seq<char>>, width: nat, line: Seq<char>)
    requires
        width >= 1,
        forall|k: int, j: int|
            0 <= k < words.len() && 0 <= j < words[k].len() ==> !is_space(#[trigger] words[k][j]),
    ensures
        solid(flat(fill(words, width, line))) == solid(line) + flat(words),
    decreases words.len(),
{
    lemma_flat_one(line);
    if words.len() == 0 {
        assert(words =~= Seq::<Seq<char>>::empty());
        assert(solid(line) + flat(words) =~= solid(line));
    } else {
        let word = words.first();
        let rest = words.drop_first();
        assert forall|k: int, j: int| 0 <= k < rest.len() && 0 <= j < rest[k].len() implies !is_space(
            #[trigger] rest[k][j],
        ) by {
            assert(rest[k] == words[k + 1]);
        }
        lemma_solid_run(word);
        assert(solid(word) == word) by {
            assert forall|j: int| 0 <= j < word.len() implies !is_space(#[trigger] word[j]) by {
                assert(word[j] == words[0][j]);
            }
        }
        assert(seq![word] + rest =~= words);
        lemma_flat_one(word);
        lemma_flat_concat(seq![word], rest);
        assert(flat(words) == word + flat(rest));
        let blank = Seq::<char>::empty();
        if utf8_len(line) + utf8_len(word) + 1 > width {
            if utf8_len(word) > width {
                let tail = fill(rest, width, blank);
                lemma_fill_is_solid(rest, width, blank);
                lemma_chunks_flat(word, width);
                lemma_flat_concat(flushed(line), chunks(word, width));
                lemma_flat_concat(flushed(line) + chunks(word, width), tail);
                lemma_solid_concat(line + word, flat(tail));
                lemma_solid_concat(line, word);
                assert(solid(line) + word + (solid(blank) + flat(rest)) =~= solid(line) + (word
                    + flat(rest)));
            } else {
                let tail = fill(rest, width, word);
                lemma_fill_is_solid(rest, width, word);
                lemma_flat_concat(flushed(line), tail);
                lemma_solid_concat(line, flat(tail));
                assert(solid(line) + (word + flat(rest)) =~= solid(line) + (solid(word) + flat(
                    rest,
                )));
            }
        } else if line.len() == 0 {
            lemma_fill_is_solid(rest, width, word);
            assert(solid(line) + (word + flat(rest)) =~= word + flat(rest));
        } else {
            let longer = line + seq![' '] + word;
            lemma_fill_is_solid(rest, width, longer);
            lemma_solid_concat(line + seq![' '], word);
            lemma_solid_concat(line, seq![' ']);
            lemma_solid_run(seq![' ']);
            assert(solid(seq![' ']) == blank);
            assert(solid(longer) =~= solid(line) + word);
            assert(solid(line) + word + flat(rest) =~= solid(line) + (word + flat(rest)));
        }
    }
}

/// The lines that a text is laid out in from position `i` on hold, but
/// for whitespace, what the text holds from there.
pub proof fn lemma_wrapped_from_is_solid(text: Seq<char>, i: int, width: nat)
    requires
        width >= 1,
        0 <= i <= text.len(),
    ensures
        solid(flat(wrapped_from(text, i, width))) == solid(text.subrange(i, text.len() as int)),
    decreases text.len() - i,
{
    let len = text.len() as int;
    lemma_flat_one(Seq::empty());
    if i < len {
        let end = line_end(text, i);
        lemma_line_end(text, i);
        let piece = text.subrange(i, end);
        let lines = fill(words(piece), width, Seq::empty());
        lemma_words_from(piece, 0);
        lemma_fill_is_solid(words(piece), width, Seq::empty());
        lemma_words_are_solid(piece, 0);
        assert(piece.subrange(0, piece.len() as int) =~= piece);
        assert(solid(flat(lines)) =~= solid(piece));
        if end < len {
            let rest = text.subrange(end + 1, len);
            lemma_wrapped_from_is_solid(text, end + 1, width);
            lemma_flat_concat(lines, wrapped_from(text, end + 1, width));
            lemma_solid_concat(flat(lines), flat(wrapped_from(text, end + 1, width)));
            assert(text.subrange(i, len) =~= piece + (seq!['\n'] + rest));
            lemma_solid_concat(piece, seq!['\n'] + rest);
            lemma_solid_concat(seq!['\n'], rest);
            lemma_solid_run(seq!['\n']);
            assert(solid(seq!['\n']) + solid(rest) =~= solid(rest));
        } else {
            assert(text.subrange(i, len) =~= piece);
        }
    } else {
        assert(text.subrange(i, len) =~= Seq::<char>::empty());
    }
}

/// Lines with a line feed after each hold, but for whitespace, what the
/// lines hold.
pub proof fn lemma_joined_is_solid(lines: Seq<Seq<char>>)
    ensures
        solid(joined(lines)) == solid(flat(lines)),
    decreases lines.len(),
{
    if lines.len() > 0 {
        lemma_joined_is_solid(lines.drop_last());
        lemma_solid_concat(joined(lines.drop_last()) + lines.last(), seq!['\n']);
        lemma_solid_concat(joined(lines.drop_last()), lines.last());
        lemma_solid_concat(flat(lines.drop_last()), lines.last());
        lemma_solid_run(seq!['\n']);
        assert(solid(seq!['\n']) == Seq::<char>::empty());
        assert(solid(joined(lines.drop_last())) + solid(lines.last()) + Seq::<char>::empty()
            =~= solid(joined(lines.drop_last())) + solid(lines.last()));
    }
}

/// Laying a text out changes nothing but its whitespace: what is no
/// whitespace stands in the lines as in the text, all of it and in order.
pub proof fn lemma_wrapped_keeps_text(text: Seq<char>, width: nat)
    requires
        width >= 1,
    ensures
        solid(joined(wrapped(text, width))) == solid(text),
        solid(flat(wrapped(text, width))) == solid(text),
{
    lemma_wrapped_from_is_solid(text, 0, width);
    lemma_joined_is_solid(wrapped(text, width));
    assert(text.subrange(0, text.len() as int) =~= text);
}

} // verus!
