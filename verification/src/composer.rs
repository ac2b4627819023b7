//! The input line and the inputs sent before it.
//!
//! What was sent can be called back into the input line, newest first.
//! While one walks through it, the line as it stood before is kept as a
//! draft, and comes back when one walks past the newest entry.

use crate::text::{chars_of, same_text, string_of};
use vstd::prelude::*;

verus! {

/// The input line, the inputs sent before, and where in them one stands.
#[derive(Debug)]
pub struct Composer {
    input: String,
    entries: Vec<String>,
    cursor: Option<usize>,
    draft: String,
}

/// What a composer holds.
pub ghost struct ComposerView {
    /// The input line.
    pub input: Seq<char>,
    /// The inputs sent before, oldest first.
    pub entries: Seq<Seq<char>>,
    /// The entry that was called back into the input line, if one was.
    pub cursor: Option<int>,
    /// The input line as it stood before an entry was called back.
    pub draft: Seq<char>,
}

/// What each string of `v` holds.
pub open spec fn entry_views(v: Seq<String>) -> Seq<Seq<char>> {
    Seq::new(v.len(), |i: int| v[i]@)
}

/// The entries after `input` was sent: `input` is added unless it is empty
/// or the same as the newest entry.
pub open spec fn recorded(entries: Seq<Seq<char>>, input: Seq<char>) -> Seq<Seq<char>> {
    if input.len() == 0 || (entries.len() > 0 && entries.last() == input) {
        entries
    } else {
        entries.push(input)
    }
}

impl ComposerView {
    /// Whether the cursor, where there is one, stands on an entry.
    pub open spec fn wf(self) -> bool {
        self.cursor matches Some(i) ==> 0 <= i < self.entries.len()
    }

    /// The composer after its input line was sent: the input is recorded,
    /// the line and the draft are empty, and no entry is called back.
    pub open spec fn sent(self) -> ComposerView {
        ComposerView {
            input: Seq::empty(),
            entries: recorded(self.entries, self.input),
            cursor: None,
            draft: Seq::empty(),
        }
    }

    /// The composer after the draft was moved back into the input line:
    /// the draft is empty and no entry is called back.
    pub open spec fn restored(self) -> ComposerView {
        ComposerView { input: self.draft, draft: Seq::empty(), cursor: None, ..self }
    }

    /// The composer after the walk through the entries was left: the input
    /// line is as the draft keeps it, the draft stays as it is, and no
    /// entry is called back.
    pub open spec fn left(self) -> ComposerView {
        ComposerView { input: self.draft, cursor: None, ..self }
    }

    /// The composer with entry `i` called back into the input line.
    pub open spec fn recalled(self, i: int) -> ComposerView {
        ComposerView { input: self.entries[i], cursor: Some(i), ..self }
    }

    /// The composer after one step through the entries, towards older ones
    /// if `up`, else towards newer ones.
    ///
    /// The first step keeps the input line as the draft and calls back the
    /// newest entry, or the oldest if it is made towards newer ones. A
    /// further step calls back the entry before or after; the oldest entry
    /// stays where no older one is, and a step past the newest leaves the
    /// walk: the input line is as the draft keeps it. The draft changes on
    /// the first step only. Without entries nothing changes.
    pub open spec fn navigated(self, up: bool) -> ComposerView {
        if self.entries.len() == 0 {
            self
        } else {
            match self.cursor {
                Some(i) => if up {
                    if i > 0 {
                        self.recalled(i - 1)
                    } else {
                        self.recalled(i)
                    }
                } else if i + 1 < self.entries.len() {
                    self.recalled(i + 1)
                } else {
                    self.left()
                },
                None => (ComposerView { draft: self.input, ..self }).recalled(
                    if up {
                        self.entries.len() - 1
                    } else {
                        0
                    },
                ),
            }
        }
    }
}

/// Recording an input takes no entry away: the entries before are the
/// first of the entries after, in their order.
pub proof fn lemma_recorded_extends(entries: Seq<Seq<char>>, input: Seq<char>)
    ensures
        recorded(entries, input).len() >= entries.len(),
        recorded(entries, input).take(entries.len() as int) == entries,
{
    assert(recorded(entries, input).take(entries.len() as int) =~= entries);
}

/// Once an entry is called back, a step through the entries leaves the
/// draft as it is.
pub proof fn lemma_navigated_keeps_draft(composer: ComposerView, up: bool)
    requires
        composer.cursor is Some,
    ensures
        composer.navigated(up).draft == composer.draft,
        composer.navigated(up).entries == composer.entries,
{
}

/// A step through the entries leaves the cursor, where there is one, on
/// an entry.
pub proof fn lemma_navigated_wf(composer: ComposerView, up: bool)
    requires
        composer.wf(),
    ensures
        composer.navigated(up).wf(),
{
}

impl View for Composer {
    type V = ComposerView;

    closed spec fn view(&self) -> ComposerView {
        ComposerView {
            input: self.input@,
            entries: entry_views(self.entries@),
            cursor: match self.cursor {
                Some(i) => Some(i as int),
                None => None,
            },
            draft: self.draft@,
        }
    }
}

impl Composer {
    /// What holds of every composer: the cursor, where there is one,
    /// stands on an entry.
    #[verifier::type_invariant]
    pub open spec fn well_formed(self) -> bool {
        self@.wf()
    }
}

impl Composer {
    /// A composer with an empty input line and no entries.
    pub fn new() -> (composer: Composer)
        ensures
            composer@ == (ComposerView {
                input: Seq::empty(),
                entries: Seq::empty(),
                cursor: None,
                draft: Seq::empty(),
            }),
    {
        let composer = Composer {
            input: String::new(),
            entries: Vec::new(),
            cursor: None,
            draft: String::new(),
        };
        assert(composer@.entries =~= Seq::<Seq<char>>::empty());
        composer
    }

    /// The input line.
    pub fn input(&self) -> (input: &str)
        ensures
            input@ == self@.input,
    {
        self.input.as_str()
    }

    /// The inputs sent before, oldest first.
    pub fn entries(&self) -> (entries: &Vec<String>)
        ensures
            entry_views(entries@) == self@.entries,
    {
        &self.entries
    }

    /// The position of the entry that was called back, if one was.
    pub fn cursor(&self) -> (cursor: Option<usize>)
        ensures
            cursor is Some == self@.cursor is Some,
            cursor matches Some(i) ==> self@.cursor == Some(i as int),
    {
        self.cursor
    }

    /// The input line as it stood before an entry was called back.
    pub fn draft(&self) -> (draft: &str)
        ensures
            draft@ == self@.draft,
    {
        self.draft.as_str()
    }

    /// Adds a character at the end of the input line.
    pub fn push_char(&mut self, c: char)
        ensures
            final(self)@ == (ComposerView { input: old(self)@.input.push(c), ..old(self)@ }),
    {
        proof {
            use_type_invariant(&*self);
        }
        let mut input = self.input.clone();
        input.push(c);
        self.input = input;
    }

    /// Takes the last character off the input line, if it has one.
    pub fn pop_char(&mut self)
        ensures
            final(self)@ == (ComposerView {
                input: if old(self)@.input.len() > 0 {
                    old(self)@.input.drop_last()
                } else {
                    old(self)@.input
                },
                ..old(self)@
            }),
    {
        proof {
            use_type_invariant(&*self);
        }
        let mut chars = chars_of(self.input.as_str());
        if chars.len() > 0 {
            chars.pop();
            self.input = string_of(&chars);
        }
    }

    /// Records `input` among the entries, as the newest of them, unless it
    /// is empty or the same as the newest entry.
    pub fn record(&mut self, input: &str)
        ensures
            final(self)@ == (ComposerView {
                entries: recorded(old(self)@.entries, input@),
                ..old(self)@
            }),
    {
        proof {
            use_type_invariant(&*self);
        }
        let n = self.entries.len();
        if !input.is_empty() && !(n > 0 && same_text(self.entries[n - 1].as_str(), input)) {
            let mut entries: Vec<String> = Vec::new();
            let entry = input.to_string();
            // The cursor stands aside while the entries are taken out, so
            // that it never points past them.
            let cursor = self.cursor;
            self.cursor = None;
            core::mem::swap(&mut entries, &mut self.entries);
            proof {
                assert(entry_views(entries@.push(entry)) =~= entry_views(entries@).push(entry@));
            }
            entries.push(entry);
            self.entries = entries;
            self.cursor = cursor;
        }
    }

    /// Sends the input line: hands it out, records it among the entries
    /// unless it is empty or the same as the newest of them, and leaves
    /// the line and the draft empty and no entry called back.
    pub fn send(&mut self) -> (input: String)
        ensures
            input@ == old(self)@.input,
            final(self)@ == old(self)@.sent(),
    {
        let input = self.input.clone();
        self.record(input.as_str());
        self.cursor = None;
        self.draft = String::new();
        self.input = String::new();
        input
    }

    /// Moves the draft back into the input line, and leaves the draft
    /// empty and no entry called back.
    pub fn restore_draft(&mut self)
        ensures
            final(self)@ == old(self)@.restored(),
    {
        self.cursor = None;
        self.input = self.draft.clone();
        self.draft = String::new();
    }

    /// Steps through the entries, towards older ones if `up`, else towards
    /// newer ones, and calls the entry that is reached back into the input
    /// line.
    pub fn navigate(&mut self, up: bool)
        ensures
            final(self)@ == old(self)@.navigated(up),
    {
        proof {
            use_type_invariant(&*self);
        }
        let n = self.entries.len();
        if n == 0 {
            return ;
        }
        match self.cursor {
            Some(i) => {
                if up {
                    if i > 0 {
                        self.cursor = Some(i - 1);
                    }
                } else if i + 1 < n {
                    self.cursor = Some(i + 1);
                } else {
                    self.cursor = None;
                    self.input = self.draft.clone();
                    return ;
                }
            },
            None => {
                self.draft = self.input.clone();
                self.cursor = Some(
                    if up {
                        n - 1
                    } else {
                        0
                    },
                );
            },
        }
        if let Some(i) = self.cursor {
            self.input = self.entries[i].clone();
        }
    }
}

} // verus!
