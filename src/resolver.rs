//! Resolving typed keys against a binding table, greedy on exact matches.

use vstd::prelude::*;

use crate::action::Action;
use crate::bindings::BindingTable;
use crate::keys::{KeyPress, is_prefix, is_strict_prefix};

verus! {

/// What feeding one key press to the resolver gave.
#[derive(Clone, Copy, Debug, PartialEq, Eq, Structural)]
pub enum Resolution {
    /// The pending keys form a bound chord: its action fires.
    Fired(Action),
    /// The pending keys start a longer bound chord: wait for more.
    Pending,
    /// The pending keys start no bound chord: they are dropped.
    Reset,
}

/// Feeding `key` with `pending` already typed, against `table`: the outcome
/// and the keys that stay pending. An exact match fires at once, even where
/// a longer chord starts with it.
pub open spec fn resolve(
    table: Map<Seq<KeyPress>, Action>,
    pending: Seq<KeyPress>,
    key: KeyPress,
) -> (Resolution, Seq<KeyPress>) {
    let buf = pending.push(key);
    if table.contains_key(buf) {
        (Resolution::Fired(table[buf]), Seq::empty())
    } else if exists|c: Seq<KeyPress>| table.contains_key(c) && is_strict_prefix(buf, c) {
        (Resolution::Pending, buf)
    } else {
        (Resolution::Reset, Seq::empty())
    }
}

/// Feeding `keys` one by one, from nothing pending: the last outcome and
/// what stays pending.
pub open spec fn resolve_all(table: Map<Seq<KeyPress>, Action>, keys: Seq<KeyPress>) -> (
    Resolution,
    Seq<KeyPress>,
)
    decreases keys.len(),
{
    if keys.len() == 0 {
        (Resolution::Reset, Seq::empty())
    } else {
        resolve(table, resolve_all(table, keys.drop_last()).1, keys.last())
    }
}

/// The keys typed since the last chord fired or was dropped.
#[derive(Clone, Debug)]
pub struct ChordResolver {
    pub pending: Vec<KeyPress>,
}

impl ChordResolver {
    /// A resolver with nothing pending.
    pub fn new() -> (r: ChordResolver)
        ensures
            r.pending@ == Seq::<KeyPress>::empty(),
    {
        ChordResolver { pending: Vec::new() }
    }

    /// Adds `key` to the pending keys and matches them against `table`.
    pub fn feed(&mut self, table: &BindingTable, key: KeyPress) -> (r: Resolution)
        requires
            table.wf(),
        ensures
            (r, final(self).pending@) == resolve(table@, old(self).pending@, key),
    {
        self.pending.push(key);
        match table.get(&self.pending) {
            Some(a) => {
                self.pending.clear();
                Resolution::Fired(a)
            },
            None => {
                if table.is_strict_prefix_of_bound(&self.pending) {
                    Resolution::Pending
                } else {
                    self.pending.clear();
                    Resolution::Reset
                }
            },
        }
    }
}

/// A key sequence that starts no bound chord leaves nothing pending: the
/// offending key press resets the buffer, whatever was pending before.
pub proof fn lemma_unmatched_keys_leave_nothing_pending(
    table: Map<Seq<KeyPress>, Action>,
    pending: Seq<KeyPress>,
    key: KeyPress,
)
    requires
        forall|c: Seq<KeyPress>| table.contains_key(c) ==> !is_prefix(#[trigger] pending.push(key), c),
    ensures
        resolve(table, pending, key) == (Resolution::Reset, Seq::<KeyPress>::empty()),
{
    let buf = pending.push(key);
    assert(!table.contains_key(buf)) by {
        if table.contains_key(buf) {
            assert(buf.subrange(0, buf.len() as int) =~= buf);
        }
    }
    assert forall|c: Seq<KeyPress>| table.contains_key(c) implies !is_strict_prefix(buf, c) by {
        assert(!is_prefix(buf, c));
    }
}

/// Typing exactly a bound chord `c1` fires its action on its last key, even
/// though a longer bound chord `c2` starts with `c1`: the resolver never
/// waits for `c2`. Every key before the last one leaves the typed keys
/// pending. (`c1` must not itself start with a shorter bound chord, which
/// would fire first.)
pub proof fn lemma_exact_chord_fires_at_once(
    table: Map<Seq<KeyPress>, Action>,
    c1: Seq<KeyPress>,
    c2: Seq<KeyPress>,
)
    requires
        table.contains_key(c1),
        table.contains_key(c2),
        is_strict_prefix(c1, c2),
        c1.len() > 0,
        forall|k: int| 0 < k < c1.len() ==> !table.contains_key(#[trigger] c1.subrange(0, k)),
    ensures
        resolve_all(table, c1) == (Resolution::Fired(table[c1]), Seq::<KeyPress>::empty()),
        forall|k: int|
            0 < k < c1.len() ==> #[trigger] resolve_all(table, c1.subrange(0, k)) == (
                Resolution::Pending,
                c1.subrange(0, k),
            ),
{
    assert forall|k: int| 0 < k < c1.len() implies #[trigger] resolve_all(
        table,
        c1.subrange(0, k),
    ) == (Resolution::Pending, c1.subrange(0, k)) by {
        lemma_prefixes_pending(table, c1, k);
    }
    let prev = c1.subrange(0, c1.len() - 1);
    if c1.len() > 1 {
        lemma_prefixes_pending(table, c1, c1.len() - 1);
    } else {
        assert(prev =~= Seq::<KeyPress>::empty());
    }
    assert(c1.drop_last() =~= prev);
    assert(resolve_all(table, c1.drop_last()).1 == prev);
    assert(prev.push(c1.last()) =~= c1);
}

proof fn lemma_prefixes_pending(table: Map<Seq<KeyPress>, Action>, c1: Seq<KeyPress>, k: int)
    requires
        table.contains_key(c1),
        0 < k < c1.len(),
        forall|j: int| 0 < j < c1.len() ==> !table.contains_key(#[trigger] c1.subrange(0, j)),
    ensures
        resolve_all(table, c1.subrange(0, k)) == (Resolution::Pending, c1.subrange(0, k)),
    decreases k,
{
    let p = c1.subrange(0, k);
    assert(p.drop_last() =~= c1.subrange(0, k - 1));
    if k > 1 {
        lemma_prefixes_pending(table, c1, k - 1);
    } else {
        assert(c1.subrange(0, 0) =~= Seq::<KeyPress>::empty());
    }
    assert(c1.subrange(0, k - 1).push(c1[k - 1]) =~= p);
    assert(!table.contains_key(p));
    assert(c1.subrange(0, p.len() as int) == p);
    assert(table.contains_key(c1) && is_strict_prefix(p, c1));
    assert(resolve_all(table, p.drop_last()).1 == c1.subrange(0, k - 1));
    assert(resolve(table, c1.subrange(0, k - 1), c1[k - 1]) == (Resolution::Pending, p));
}

} // verus!
