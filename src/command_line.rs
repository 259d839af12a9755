//! The command line: typing, history and completion cycling.

use vstd::prelude::*;

use crate::action::Action;
use crate::command_mode::{CommandMode, completions_in, find_command};
use crate::text::{pop_char, push_char, split_words, string_views, words_of};

verus! {

/// The command line as values: what is typed, the text saved while browsing
/// history or completions, the history (oldest first) with the browsing
/// position (0 = most recent), and the completion matches with the
/// highlighted one.
pub struct LineState {
    pub text: Seq<char>,
    pub tmp: Seq<char>,
    pub history: Seq<Seq<char>>,
    pub history_index: Option<nat>,
    pub matches: Seq<Seq<char>>,
    pub completion: Option<nat>,
}

pub open spec fn opt_nat(o: Option<usize>) -> Option<nat> {
    match o {
        Some(i) => Some(i as nat),
        None => None,
    }
}

/// A character typed: it is appended, and any completion cycle ends.
pub open spec fn typed(s: LineState, c: char) -> LineState {
    LineState { text: s.text.push(c), matches: Seq::empty(), completion: None, ..s }
}

/// Backspace: the last character goes, if there is one.
pub open spec fn backspaced(s: LineState) -> LineState {
    if s.text.len() > 0 {
        LineState { text: s.text.drop_last(), ..s }
    } else {
        s
    }
}

/// The state at the start of a completion step: on the first press the
/// text is saved and the matches are computed.
pub open spec fn completion_started(s: LineState, table: Seq<(Seq<char>, Action)>) -> LineState {
    if s.completion is None {
        LineState { tmp: s.text, matches: completions_in(table, s.text), ..s }
    } else {
        s
    }
}

/// Tab: the next match, or back to the saved text after the last one.
pub open spec fn tabbed(s: LineState, table: Seq<(Seq<char>, Action)>) -> LineState {
    let s1 = completion_started(s, table);
    let next: nat = match s1.completion {
        Some(i) => i + 1,
        None => 0,
    };
    if next >= s1.matches.len() {
        LineState { completion: None, text: s1.tmp, ..s1 }
    } else {
        LineState { completion: Some(next), text: s1.matches[next as int], ..s1 }
    }
}

/// Shift-Tab: the previous match; from the saved text, the last match.
pub open spec fn back_tabbed(s: LineState, table: Seq<(Seq<char>, Action)>) -> LineState {
    let s1 = completion_started(s, table);
    match s1.completion {
        Some(i) => if i == 0 {
            LineState { completion: None, text: s1.tmp, ..s1 }
        } else {
            LineState { completion: Some((i - 1) as nat), text: s1.matches[i - 1], ..s1 }
        },
        None => if s1.matches.len() > 0 {
            LineState {
                completion: Some((s1.matches.len() - 1) as nat),
                text: s1.matches.last(),
                ..s1
            }
        } else {
            s1
        },
    }
}

/// Up: one entry further into the past, saving the typed text on the way in.
pub open spec fn history_up(s: LineState) -> LineState {
    let next: nat = match s.history_index {
        Some(i) => i + 1,
        None => 0,
    };
    if next < s.history.len() {
        LineState {
            tmp: if s.history_index is None { s.text } else { s.tmp },
            history_index: Some(next),
            text: s.history[s.history.len() - next - 1],
            ..s
        }
    } else {
        s
    }
}

/// Down: one entry toward the present; past the most recent one, the saved
/// text comes back.
pub open spec fn history_down(s: LineState) -> LineState {
    match s.history_index {
        Some(i) => if i == 0 {
            LineState { history_index: None, text: s.tmp, ..s }
        } else {
            LineState {
                history_index: Some((i - 1) as nat),
                text: s.history[s.history.len() - (i - 1) - 1],
                ..s
            }
        },
        None => s,
    }
}

/// `n` presses of Tab.
pub open spec fn tabbed_times(s: LineState, table: Seq<(Seq<char>, Action)>, n: nat) -> LineState
    decreases n,
{
    if n == 0 {
        s
    } else {
        tabbed(tabbed_times(s, table, (n - 1) as nat), table)
    }
}

/// What Enter did on the command line.
#[derive(Clone, Debug)]
pub enum Submission {
    /// A highlighted completion became the text; nothing ran.
    Completed,
    /// The text was submitted: the action of its first word, if that names a
    /// command, and the words after it.
    Run { action: Option<Action>, args: Vec<String> },
}

/// The command-mode text buffer with its history and completion cycle.
pub struct CommandLine {
    pub text: String,
    pub editing_tmp: String,
    pub history: Vec<String>,
    pub history_index: Option<usize>,
    pub matches: Vec<String>,
    pub completion_index: Option<usize>,
}

impl CommandLine {
    pub open spec fn model(&self) -> LineState {
        LineState {
            text: self.text@,
            tmp: self.editing_tmp@,
            history: string_views(self.history@),
            history_index: opt_nat(self.history_index),
            matches: string_views(self.matches@),
            completion: opt_nat(self.completion_index),
        }
    }

    pub open spec fn wf(&self) -> bool {
        &&& self.history_index matches Some(i) ==> i < self.history.len()
        &&& self.completion_index matches Some(i) ==> i < self.matches.len()
    }

    /// An empty command line with no history.
    pub fn new() -> (r: CommandLine)
        ensures
            r.wf(),
            r.model() == (LineState {
                text: Seq::empty(),
                tmp: Seq::empty(),
                history: Seq::empty(),
                history_index: None,
                matches: Seq::empty(),
                completion: None,
            }),
    {
        let r = CommandLine {
            text: String::new(),
            editing_tmp: String::new(),
            history: Vec::new(),
            history_index: None,
            matches: Vec::new(),
            completion_index: None,
        };
        assert(r.model().history =~= Seq::<Seq<char>>::empty());
        assert(r.model().matches =~= Seq::<Seq<char>>::empty());
        r
    }

    /// Appends a typed character; a completion cycle ends.
    pub fn type_char(&mut self, c: char)
        requires
            old(self).wf(),
        ensures
            final(self).wf(),
            final(self).model() == typed(old(self).model(), c),
    {
        push_char(&mut self.text, c);
        self.matches = Vec::new();
        self.completion_index = None;
        assert(self.model().matches =~= Seq::<Seq<char>>::empty());
    }

    /// Removes the last character, if any.
    pub fn backspace(&mut self)
        requires
            old(self).wf(),
        ensures
            final(self).wf(),
            final(self).model() == backspaced(old(self).model()),
    {
        pop_char(&mut self.text);
    }

    fn start_completion(&mut self, commands: &CommandMode)
        requires
            old(self).wf(),
        ensures
            final(self).wf(),
            final(self).model() == completion_started(old(self).model(), commands@),
    {
        if self.completion_index.is_none() {
            self.editing_tmp = self.text.clone();
            self.matches = commands.completions(self.text.as_str());
        }
    }

    /// Tab: cycles forward through the command names that start with the
    /// saved text, then back to the saved text.
    pub fn tab(&mut self, commands: &CommandMode)
        requires
            old(self).wf(),
        ensures
            final(self).wf(),
            final(self).model() == tabbed(old(self).model(), commands@),
    {
        self.start_completion(commands);
        let next: usize = match self.completion_index {
            Some(i) => i + 1,
            None => 0,
        };
        if next >= self.matches.len() {
            self.completion_index = None;
            self.text = self.editing_tmp.clone();
        } else {
            self.completion_index = Some(next);
            self.text = self.matches[next].clone();
        }
    }

    /// Shift-Tab: cycles backward through the same matches.
    pub fn back_tab(&mut self, commands: &CommandMode)
        requires
            old(self).wf(),
        ensures
            final(self).wf(),
            final(self).model() == back_tabbed(old(self).model(), commands@),
    {
        self.start_completion(commands);
        match self.completion_index {
            Some(i) => {
                if i == 0 {
                    self.completion_index = None;
                    self.text = self.editing_tmp.clone();
                } else {
                    self.completion_index = Some(i - 1);
                    self.text = self.matches[i - 1].clone();
                }
            },
            None => {
                if self.matches.len() > 0 {
                    let last = self.matches.len() - 1;
                    self.completion_index = Some(last);
                    self.text = self.matches[last].clone();
                }
            },
        }
    }

    /// Up: the previous submission, further into the past.
    pub fn up(&mut self)
        requires
            old(self).wf(),
        ensures
            final(self).wf(),
            final(self).model() == history_up(old(self).model()),
    {
        let next: usize = match self.history_index {
            Some(i) => i + 1,
            None => 0,
        };
        if next < self.history.len() {
            if self.history_index.is_none() {
                self.editing_tmp = self.text.clone();
            }
            self.history_index = Some(next);
            self.text = self.history[self.history.len() - next - 1].clone();
        }
    }

    /// Down: back toward the text being typed.
    pub fn down(&mut self)
        requires
            old(self).wf(),
        ensures
            final(self).wf(),
            final(self).model() == history_down(old(self).model()),
    {
        match self.history_index {
            Some(i) => {
                if i == 0 {
                    self.history_index = None;
                    self.text = self.editing_tmp.clone();
                } else {
                    self.history_index = Some(i - 1);
                    self.text = self.history[self.history.len() - (i - 1) - 1].clone();
                }
            },
            None => {},
        }
    }

    /// Esc: cancels an active completion (the matches are dropped and the
    /// saved text comes back) and returns true (the command line stays
    /// open). Otherwise clears the text, stops browsing history, and returns
    /// false (the command line closes).
    pub fn escape(&mut self) -> (stays: bool)
        requires
            old(self).wf(),
        ensures
            final(self).wf(),
            stays == old(self).completion_index is Some,
            stays ==> final(self).model() == (LineState {
                completion: None,
                matches: Seq::empty(),
                text: old(self).model().tmp,
                ..old(self).model()
            }),
            !stays ==> final(self).model() == (LineState {
                text: Seq::empty(),
                history_index: None,
                ..old(self).model()
            }),
    {
        if self.completion_index.is_some() {
            self.completion_index = None;
            self.matches = Vec::new();
            self.text = self.editing_tmp.clone();
            assert(self.model().matches =~= Seq::<Seq<char>>::empty());
            true
        } else {
            self.text = String::new();
            self.history_index = None;
            false
        }
    }

    /// Enter. With a highlighted completion, the completion is accepted as
    /// the text and nothing runs. Otherwise the text is split into words, the
    /// first word is looked up as a command, the text is added to the history
    /// as it was typed (whether or not it named a command), and the line is
    /// cleared.
    pub fn submit(&mut self, commands: &CommandMode) -> (r: Submission)
        requires
            old(self).wf(),
        ensures
            final(self).wf(),
            old(self).completion_index is Some ==> r is Completed && final(self).model() == (LineState {
                completion: None,
                matches: Seq::empty(),
                ..old(self).model()
            }),
            old(self).completion_index is None ==> ({
                let words = words_of(old(self).text@);
                &&& r matches Submission::Run { action, args } && action == (if words.len() > 0 {
                    find_command(commands@, words[0])
                } else {
                    None
                }) && string_views(args@) == (if words.len() > 0 {
                    words.drop_first()
                } else {
                    Seq::empty()
                })
                &&& final(self).model() == (LineState {
                    text: Seq::empty(),
                    history: old(self).model().history.push(old(self).text@),
                    history_index: None,
                    ..old(self).model()
                })
            }),
    {
        if self.completion_index.is_some() {
            self.completion_index = None;
            self.matches = Vec::new();
            assert(self.model().matches =~= Seq::<Seq<char>>::empty());
            return Submission::Completed;
        }
        let mut words = split_words(self.text.as_str());
        let ghost all = string_views(words@);
        let action = if words.len() > 0 {
            commands.lookup(words[0].as_str())
        } else {
            None
        };
        if words.len() > 0 {
            words.remove(0);
            assert(string_views(words@) =~= all.drop_first());
        }
        let submitted = self.text.clone();
        self.text = String::new();
        self.history.push(submitted);
        self.history_index = None;
        assert(self.model().history =~= old(self).model().history.push(old(self).text@));
        Submission::Run { action, args: words }
    }
}

/// Completion cycling is a cycle of `len(matches) + 1` states: starting
/// outside a cycle, Tab presses 1 to `k` highlight the `k` matches in order,
/// and press `k + 1` brings back the text that was typed.
pub proof fn lemma_tab_cycle_returns(s: LineState, table: Seq<(Seq<char>, Action)>)
    requires
        s.completion is None,
    ensures
        ({
            let m = completions_in(table, s.text);
            let k = m.len();
            &&& forall|j: nat|
                1 <= j <= k ==> (#[trigger] tabbed_times(s, table, j)).completion == Some(
                    (j - 1) as nat,
                ) && tabbed_times(s, table, j).text == m[j - 1]
            &&& tabbed_times(s, table, k + 1).text == s.text
            &&& tabbed_times(s, table, k + 1).completion is None
        }),
{
    let m = completions_in(table, s.text);
    let k = m.len();
    assert forall|j: nat| 1 <= j <= k implies (#[trigger] tabbed_times(s, table, j)).completion
        == Some((j - 1) as nat) && tabbed_times(s, table, j).text == m[j - 1] by {
        lemma_tab_steps(s, table, j);
    }
    if k > 0 {
        lemma_tab_steps(s, table, k);
    }
    assert(tabbed_times(s, table, 0) == s);
}

proof fn lemma_tab_steps(s: LineState, table: Seq<(Seq<char>, Action)>, j: nat)
    requires
        s.completion is None,
        1 <= j <= completions_in(table, s.text).len(),
    ensures
        tabbed_times(s, table, j) == (LineState {
            tmp: s.text,
            matches: completions_in(table, s.text),
            completion: Some((j - 1) as nat),
            text: completions_in(table, s.text)[j - 1],
            ..s
        }),
    decreases j,
{
    let prev = tabbed_times(s, table, (j - 1) as nat);
    if j > 1 {
        lemma_tab_steps(s, table, (j - 1) as nat);
        assert(completion_started(prev, table) == prev);
    } else {
        assert(prev == s);
    }
    assert(tabbed_times(s, table, j) == tabbed(prev, table));
}

} // verus!
