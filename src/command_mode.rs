//! The fixed table of command names and its completions.

use vstd::prelude::*;

use crate::action::Action;
use crate::text::str_eq;

verus! {

/// A command name and the action it runs.
#[derive(Clone, Debug)]
pub struct Command {
    pub name: String,
    pub action: Action,
}

/// The fixed command table, in lexicographic order of names.
pub open spec fn command_list() -> Seq<(Seq<char>, Action)> {
    seq![
        ("bm"@, Action::CreateBookmark),
        ("bookmark"@, Action::CreateBookmark),
        ("dbm"@, Action::DeleteBookmark),
        ("del_bookmark"@, Action::DeleteBookmark),
        ("delete"@, Action::DeleteFile),
        ("mkdir"@, Action::CreateDir),
        ("mv"@, Action::MoveEntry),
        ("up"@, Action::MoveUp),
    ]
}

pub open spec fn command_view(c: Command) -> (Seq<char>, Action) {
    (c.name@, c.action)
}

/// The action of the first entry of `list` named `w`.
pub open spec fn find_command(list: Seq<(Seq<char>, Action)>, w: Seq<char>) -> Option<Action>
    decreases list.len(),
{
    if list.len() == 0 {
        None
    } else if list[0].0 == w {
        Some(list[0].1)
    } else {
        find_command(list.drop_first(), w)
    }
}

/// `p` is a prefix of `s`.
pub open spec fn starts_with(s: Seq<char>, p: Seq<char>) -> bool {
    p.len() <= s.len() && s.subrange(0, p.len() as int) == p
}

/// The names of `list` that start with `p`, in the order of `list`.
pub open spec fn completions_in(list: Seq<(Seq<char>, Action)>, p: Seq<char>) -> Seq<Seq<char>> {
    list.map_values(|e: (Seq<char>, Action)| e.0).filter(|n: Seq<char>| starts_with(n, p))
}

/// `a` comes before `b` in lexicographic order.
pub open spec fn lex_lt(a: Seq<char>, b: Seq<char>) -> bool
    decreases a.len(),
{
    if a.len() == 0 {
        b.len() > 0
    } else if b.len() == 0 {
        false
    } else if a[0] != b[0] {
        (a[0] as u32) < (b[0] as u32)
    } else {
        lex_lt(a.drop_first(), b.drop_first())
    }
}

/// The names that commands go by.
pub struct CommandMode {
    pub commands: Vec<Command>,
}

impl CommandMode {
    pub open spec fn view(&self) -> Seq<(Seq<char>, Action)> {
        self.commands@.map_values(|c: Command| command_view(c))
    }

    /// The fixed command table.
    pub fn new() -> (r: CommandMode)
        ensures
            r@ == command_list(),
    {
        let mut commands: Vec<Command> = Vec::new();
        commands.push(Command { name: String::from_str("bm"), action: Action::CreateBookmark });
        commands.push(Command { name: String::from_str("bookmark"), action: Action::CreateBookmark });
        commands.push(Command { name: String::from_str("dbm"), action: Action::DeleteBookmark });
        commands.push(Command { name: String::from_str("del_bookmark"), action: Action::DeleteBookmark });
        commands.push(Command { name: String::from_str("delete"), action: Action::DeleteFile });
        commands.push(Command { name: String::from_str("mkdir"), action: Action::CreateDir });
        commands.push(Command { name: String::from_str("mv"), action: Action::MoveEntry });
        commands.push(Command { name: String::from_str("up"), action: Action::MoveUp });
        let r = CommandMode { commands };
        assert(r@ =~= command_list());
        r
    }

    /// The action of the command named `word`.
    pub fn lookup(&self, word: &str) -> (r: Option<Action>)
        ensures
            r == find_command(self@, word@),
    {
        let mut i: usize = 0;
        assert(self@.subrange(0, self@.len() as int) =~= self@);
        while i < self.commands.len()
            invariant
                i <= self.commands.len(),
                find_command(self@, word@) == find_command(self@.subrange(i as int, self@.len() as int), word@),
            decreases self.commands.len() - i,
        {
            let ghost rest = self@.subrange(i as int, self@.len() as int);
            assert(rest.drop_first() =~= self@.subrange(i + 1, self@.len() as int));
            assert(rest[0] == command_view(self.commands@[i as int]));
            if str_eq(self.commands[i].name.as_str(), word) {
                return Some(self.commands[i].action);
            }
            i = i + 1;
        }
        None
    }

    /// The command names that start with `prefix`, in table order.
    pub fn completions(&self, prefix: &str) -> (r: Vec<String>)
        ensures
            r@.map_values(|s: String| s@) == completions_in(self@, prefix@),
    {
        let mut out: Vec<String> = Vec::new();
        let mut i: usize = 0;
        while i < self.commands.len()
            invariant
                i <= self.commands.len(),
                out@.map_values(|s: String| s@) == completions_in(self@.subrange(0, i as int), prefix@),
            decreases self.commands.len() - i,
        {
            let ghost before = self@.subrange(0, i as int);
            let ghost after = self@.subrange(0, i + 1);
            let ghost bn = before.map_values(|e: (Seq<char>, Action)| e.0);
            let ghost an = after.map_values(|e: (Seq<char>, Action)| e.0);
            assert(an.drop_last() =~= bn);
            assert(an.last() == self.commands@[i as int].name@);
            let name = &self.commands[i].name;
            if str_starts_with(name.as_str(), prefix) {
                out.push(name.clone());
            }
            proof {
                reveal(Seq::filter);
                assert(out@.map_values(|s: String| s@) =~= completions_in(after, prefix@));
            }
            i = i + 1;
        }
        assert(self@.subrange(0, self@.len() as int) =~= self@);
        out
    }
}

/// Whether `s` starts with `p`.
pub fn str_starts_with(s: &str, p: &str) -> (r: bool)
    ensures
        r == starts_with(s@, p@),
{
    let n = p.unicode_len();
    if n > s.unicode_len() {
        return false;
    }
    let mut i: usize = 0;
    while i < n
        invariant
            n == p@.len(),
            n <= s@.len(),
            i <= n,
            forall|j: int| 0 <= j < i ==> s@[j] == p@[j],
        decreases n - i,
    {
        if s.get_char(i) != p.get_char(i) {
            assert(s@.subrange(0, n as int)[i as int] != p@[i as int]);
            return false;
        }
        i = i + 1;
    }
    assert(s@.subrange(0, n as int) =~= p@);
    true
}

/// The actions that commands run.
pub open spec fn is_command_action(a: Action) -> bool {
    a == Action::CreateBookmark || a == Action::DeleteBookmark || a == Action::DeleteFile || a
        == Action::CreateDir || a == Action::MoveEntry || a == Action::MoveUp
}

/// A command runs one of the command actions.
pub proof fn lemma_command_actions(w: Seq<char>)
    ensures
        find_command(command_list(), w) matches Some(a) ==> is_command_action(a),
{
    reveal_with_fuel(find_command, 9);
}

proof fn lemma_lex_lt_trans(a: Seq<char>, b: Seq<char>, c: Seq<char>)
    requires
        lex_lt(a, b),
        lex_lt(b, c),
    ensures
        lex_lt(a, c),
    decreases a.len(),
{
    if a.len() > 0 && b.len() > 0 && c.len() > 0 && a[0] == b[0] && b[0] == c[0] {
        lemma_lex_lt_trans(a.drop_first(), b.drop_first(), c.drop_first());
    }
}

proof fn lemma_sorted_from_adjacent(s: Seq<Seq<char>>, i: int, j: int)
    requires
        forall|k: int| 0 <= k < s.len() - 1 ==> lex_lt(#[trigger] s[k], s[k + 1]),
        0 <= i < j < s.len(),
    ensures
        lex_lt(s[i], s[j]),
    decreases j - i,
{
    if j > i + 1 {
        lemma_sorted_from_adjacent(s, i, j - 1);
        lemma_lex_lt_trans(s[i], s[j - 1], s[j]);
    }
}

/// The command table is in lexicographic order of names.
pub proof fn lemma_command_list_sorted()
    ensures
        forall|i: int, j: int|
            0 <= i < j < command_list().len() ==> lex_lt(#[trigger] command_list()[i].0, #[trigger] command_list()[j].0),
{
    reveal_strlit("bm");
    reveal_strlit("bookmark");
    reveal_strlit("dbm");
    reveal_strlit("del_bookmark");
    reveal_strlit("delete");
    reveal_strlit("mkdir");
    reveal_strlit("mv");
    reveal_strlit("up");
    let s = command_list().map_values(|e: (Seq<char>, Action)| e.0);
    reveal_with_fuel(lex_lt, 5);
    assert(lex_lt(s[0], s[1]));
    assert(lex_lt(s[1], s[2]));
    assert(lex_lt(s[2], s[3]));
    assert(lex_lt(s[3], s[4]));
    assert(lex_lt(s[4], s[5]));
    assert(lex_lt(s[5], s[6]));
    assert(lex_lt(s[6], s[7]));
    assert forall|i: int, j: int| 0 <= i < j < command_list().len() implies lex_lt(
        #[trigger] command_list()[i].0,
        #[trigger] command_list()[j].0,
    ) by {
        lemma_sorted_from_adjacent(s, i, j);
    }
}

} // verus!
