//! Binding tables: maps from chords to actions.

use vstd::prelude::*;

use crate::action::Action;
use crate::keys::{KeyPress, same_chord, chord_starts_with, is_strict_prefix};

verus! {

/// One entry of a binding table.
#[derive(Clone, Debug)]
pub struct Binding {
    pub chord: Vec<KeyPress>,
    pub action: Action,
}

/// The map that a list of bindings denotes: later entries win.
pub open spec fn map_of(s: Seq<Binding>) -> Map<Seq<KeyPress>, Action>
    decreases s.len(),
{
    if s.len() == 0 {
        Map::empty()
    } else {
        map_of(s.drop_last()).insert(s.last().chord@, s.last().action)
    }
}

/// No chord occurs twice.
pub open spec fn chords_distinct(s: Seq<Binding>) -> bool {
    forall|i: int, j: int|
        0 <= i < s.len() && 0 <= j < s.len() && i != j ==> s[i].chord@ != s[j].chord@
}

proof fn lemma_map_of_dom(s: Seq<Binding>, k: Seq<KeyPress>)
    ensures
        map_of(s).contains_key(k) <==> exists|i: int| 0 <= i < s.len() && s[i].chord@ == k,
    decreases s.len(),
{
    if s.len() > 0 {
        lemma_map_of_dom(s.drop_last(), k);
        if map_of(s).contains_key(k) && s.last().chord@ != k {
            let i = choose|i: int| 0 <= i < s.len() - 1 && s.drop_last()[i].chord@ == k;
            assert(s[i].chord@ == k);
        }
        if exists|i: int| 0 <= i < s.len() && s[i].chord@ == k {
            let i = choose|i: int| 0 <= i < s.len() && s[i].chord@ == k;
            if i < s.len() - 1 {
                assert(s.drop_last()[i].chord@ == k);
            }
        }
    }
}

proof fn lemma_map_of_value(s: Seq<Binding>, i: int)
    requires
        chords_distinct(s),
        0 <= i < s.len(),
    ensures
        map_of(s).contains_key(s[i].chord@),
        map_of(s)[s[i].chord@] == s[i].action,
    decreases s.len(),
{
    if i < s.len() - 1 {
        let d = s.drop_last();
        assert(d[i] == s[i]);
        assert(chords_distinct(d)) by {
            assert forall|a: int, b: int|
                0 <= a < d.len() && 0 <= b < d.len() && a != b implies d[a].chord@ != d[b].chord@ by {
                assert(d[a] == s[a] && d[b] == s[b]);
            }
        }
        lemma_map_of_value(d, i);
        assert(s[s.len() - 1].chord@ != s[i].chord@);
    }
}

proof fn lemma_map_of_update(s: Seq<Binding>, i: int, b: Binding)
    requires
        chords_distinct(s),
        0 <= i < s.len(),
        b.chord@ == s[i].chord@,
    ensures
        chords_distinct(s.update(i, b)),
        map_of(s.update(i, b)) == map_of(s).insert(b.chord@, b.action),
{
    let t = s.update(i, b);
    assert(chords_distinct(t)) by {
        assert forall|x: int, y: int|
            0 <= x < t.len() && 0 <= y < t.len() && x != y implies t[x].chord@ != t[y].chord@ by {
            assert(t[x].chord@ == s[x].chord@ && t[y].chord@ == s[y].chord@);
        }
    }
    let m1 = map_of(t);
    let m2 = map_of(s).insert(b.chord@, b.action);
    assert forall|k: Seq<KeyPress>| m1.contains_key(k) <==> m2.contains_key(k) by {
        lemma_map_of_dom(t, k);
        lemma_map_of_dom(s, k);
        if m2.contains_key(k) && k != b.chord@ {
            let j = choose|j: int| 0 <= j < s.len() && s[j].chord@ == k;
            assert(t[j].chord@ == k);
        }
        if m1.contains_key(k) {
            let j = choose|j: int| 0 <= j < t.len() && t[j].chord@ == k;
            assert(s[j].chord@ == k);
        }
    }
    assert forall|k: Seq<KeyPress>| m1.contains_key(k) implies m1[k] == m2[k] by {
        lemma_map_of_dom(t, k);
        let j = choose|j: int| 0 <= j < t.len() && t[j].chord@ == k;
        lemma_map_of_value(t, j);
        if j != i {
            lemma_map_of_value(s, j);
        }
    }
    assert(m1 =~= m2);
}

/// A table from chords to actions, for one mode.
#[derive(Clone, Debug)]
pub struct BindingTable {
    pub entries: Vec<Binding>,
}

impl BindingTable {
    pub open spec fn view(&self) -> Map<Seq<KeyPress>, Action> {
        map_of(self.entries@)
    }

    pub open spec fn wf(&self) -> bool {
        chords_distinct(self.entries@)
    }

    /// An empty table.
    pub fn new() -> (r: BindingTable)
        ensures
            r.wf(),
            r@ == Map::<Seq<KeyPress>, Action>::empty(),
    {
        BindingTable { entries: Vec::new() }
    }

    /// The position of `chord` among the entries, if it is bound.
    fn find(&self, chord: &Vec<KeyPress>) -> (r: Option<usize>)
        requires
            self.wf(),
        ensures
            r matches Some(i) ==> i < self.entries.len() && self.entries@[i as int].chord@ == chord@,
            r is None ==> !self@.contains_key(chord@),
    {
        let mut i: usize = 0;
        while i < self.entries.len()
            invariant
                i <= self.entries.len(),
                forall|j: int| 0 <= j < i ==> self.entries@[j].chord@ != chord@,
            decreases self.entries.len() - i,
        {
            if same_chord(&self.entries[i].chord, chord) {
                return Some(i);
            }
            i = i + 1;
        }
        proof {
            lemma_map_of_dom(self.entries@, chord@);
        }
        None
    }

    /// Binds `chord` to `action`, replacing an earlier binding of the same chord.
    pub fn insert(&mut self, chord: Vec<KeyPress>, action: Action)
        requires
            old(self).wf(),
        ensures
            final(self).wf(),
            final(self)@ == old(self)@.insert(chord@, action),
    {
        match self.find(&chord) {
            Some(i) => {
                let ghost s = self.entries@;
                let b = Binding { chord, action };
                proof {
                    lemma_map_of_update(s, i as int, b);
                }
                self.entries.set(i, b);
                assert(self.entries@ == s.update(i as int, b));
            },
            None => {
                let ghost s = self.entries@;
                proof {
                    assert forall|j: int| 0 <= j < s.len() implies s[j].chord@ != chord@ by {
                        if s[j].chord@ == chord@ {
                            lemma_map_of_dom(s, chord@);
                        }
                    }
                }
                self.entries.push(Binding { chord, action });
                assert(self.entries@.drop_last() =~= s);
            },
        }
    }

    /// The action bound to `chord`.
    pub fn get(&self, chord: &Vec<KeyPress>) -> (r: Option<Action>)
        requires
            self.wf(),
        ensures
            r == (if self@.contains_key(chord@) {
                Some(self@[chord@])
            } else {
                None
            }),
    {
        match self.find(chord) {
            Some(i) => {
                proof {
                    lemma_map_of_value(self.entries@, i as int);
                }
                Some(self.entries[i].action)
            },
            None => None,
        }
    }

    /// Whether some bound chord is strictly longer than `p` and starts with it.
    pub fn is_strict_prefix_of_bound(&self, p: &Vec<KeyPress>) -> (r: bool)
        ensures
            r == exists|c: Seq<KeyPress>| self@.contains_key(c) && is_strict_prefix(p@, c),
    {
        let mut i: usize = 0;
        while i < self.entries.len()
            invariant
                i <= self.entries.len(),
                forall|j: int|
                    0 <= j < i ==> !is_strict_prefix(p@, #[trigger] self.entries@[j].chord@),
            decreases self.entries.len() - i,
        {
            let c = &self.entries[i].chord;
            if c.len() > p.len() && chord_starts_with(c, p) {
                proof {
                    lemma_map_of_dom(self.entries@, c@);
                    assert(self@.contains_key(c@) && is_strict_prefix(p@, c@));
                }
                return true;
            }
            i = i + 1;
        }
        proof {
            assert forall|c: Seq<KeyPress>| self@.contains_key(c) implies !is_strict_prefix(p@, c) by {
                lemma_map_of_dom(self.entries@, c);
                let j = choose|j: int| 0 <= j < self.entries@.len() && self.entries@[j].chord@ == c;
                assert(!is_strict_prefix(p@, self.entries@[j].chord@));
            }
        }
        false
    }
}

} // verus!
