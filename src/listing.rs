//! Directory listings: their order and the hidden-file filter.

use vstd::prelude::*;

use crate::text::str_to_char_arr;

verus! {

/// One entry of a directory listing.
#[derive(Clone, Debug)]
pub struct Entry {
    pub name: String,
    pub path: String,
    pub is_dir: bool,
    pub is_file: bool,
}

/// What `str::to_lowercase` gives for `s`.
pub uninterp spec fn lower_of(s: Seq<char>) -> Seq<char>;

/// Relies on `str::to_lowercase`: the result depends on the characters alone.
#[verifier::external_body]
fn to_lowercase(s: &str) -> (r: String)
    ensures
        r@ == lower_of(s@),
{
    s.to_lowercase()
}

/// `a` is at most `b` in lexicographic order of code points.
pub open spec fn lex_le(a: Seq<char>, b: Seq<char>) -> bool
    decreases a.len(),
{
    if a.len() == 0 {
        true
    } else if b.len() == 0 {
        false
    } else if a[0] != b[0] {
        a[0] < b[0]
    } else {
        lex_le(a.drop_first(), b.drop_first())
    }
}

/// The listing order: directories (all that are not plain files) before
/// files, then by lower-cased full path.
pub open spec fn entry_le(a: Entry, b: Entry) -> bool {
    (!a.is_file && b.is_file) || (a.is_file == b.is_file && lex_le(lower_of(a.path@), lower_of(b.path@)))
}

pub open spec fn is_sorted(s: Seq<Entry>) -> bool {
    forall|i: int, j: int| 0 <= i < j < s.len() ==> entry_le(#[trigger] s[i], #[trigger] s[j])
}

/// Where `x` goes in `s`: after the leading entries that are at most `x`.
pub open spec fn insert_pos(s: Seq<Entry>, x: Entry) -> nat
    decreases s.len(),
{
    if s.len() == 0 {
        0
    } else if !entry_le(s[0], x) {
        0
    } else {
        1 + insert_pos(s.drop_first(), x)
    }
}

/// `s` in listing order; entries that compare equal keep their order.
pub open spec fn sorted_entries(s: Seq<Entry>) -> Seq<Entry>
    decreases s.len(),
{
    if s.len() == 0 {
        s
    } else {
        let t = sorted_entries(s.drop_last());
        t.insert(insert_pos(t, s.last()) as int, s.last())
    }
}

/// A hidden entry: its name starts with a dot.
pub open spec fn is_hidden(e: Entry) -> bool {
    e.name@.len() > 0 && e.name@[0] == '.'
}

pub open spec fn shown(e: Entry, show_hidden: bool) -> bool {
    show_hidden || !is_hidden(e)
}

/// The listing of the entries `s`: sorted, with hidden entries only when
/// they are shown.
pub open spec fn listing(s: Seq<Entry>, show_hidden: bool) -> Seq<Entry> {
    sorted_entries(s).filter(|e: Entry| shown(e, show_hidden))
}

/// Whether `a` is at most `b` in lexicographic order.
fn chars_le(a: &Vec<char>, b: &Vec<char>) -> (r: bool)
    ensures
        r == lex_le(a@, b@),
{
    let mut i: usize = 0;
    assert(a@.subrange(0, a.len() as int) =~= a@);
    assert(b@.subrange(0, b.len() as int) =~= b@);
    while i < a.len() && i < b.len()
        invariant
            i <= a.len(),
            i <= b.len(),
            lex_le(a@, b@) == lex_le(a@.subrange(i as int, a.len() as int), b@.subrange(i as int, b.len() as int)),
        decreases a.len() - i,
    {
        let ghost sa = a@.subrange(i as int, a.len() as int);
        let ghost sb = b@.subrange(i as int, b.len() as int);
        assert(sa.drop_first() =~= a@.subrange(i + 1, a.len() as int));
        assert(sb.drop_first() =~= b@.subrange(i + 1, b.len() as int));
        assert(sa[0] == a@[i as int] && sb[0] == b@[i as int]);
        if a[i] != b[i] {
            return a[i] < b[i];
        }
        i = i + 1;
    }
    i == a.len()
}

/// Whether `a` goes before or with `b` in the listing order, given their
/// lower-cased paths.
fn entry_le_keyed(a: &Entry, ka: &Vec<char>, b: &Entry, kb: &Vec<char>) -> (r: bool)
    requires
        ka@ == lower_of(a.path@),
        kb@ == lower_of(b.path@),
    ensures
        r == entry_le(*a, *b),
{
    (!a.is_file && b.is_file) || (a.is_file == b.is_file && chars_le(ka, kb))
}

/// The entries in listing order.
pub fn sort_entries(entries: Vec<Entry>) -> (r: Vec<Entry>)
    ensures
        r@ == sorted_entries(entries@),
{
    let ghost orig = entries@;
    let n = entries.len();
    let mut rest = entries;
    let mut out: Vec<Entry> = Vec::new();
    let mut keys: Vec<Vec<char>> = Vec::new();
    let mut i: usize = 0;
    assert(orig.subrange(0, n as int) =~= orig);
    while i < n
        invariant
            i <= n,
            n == orig.len(),
            rest@ == orig.subrange(i as int, n as int),
            out@ == sorted_entries(orig.subrange(0, i as int)),
            keys.len() == out.len(),
            forall|j: int| 0 <= j < out.len() ==> (#[trigger] keys@[j])@ == lower_of(out@[j].path@),
        decreases n - i,
    {
        let ghost pre = orig.subrange(0, i as int);
        assert(orig.subrange(0, i + 1).drop_last() =~= pre);
        let x = rest.remove(0);
        assert(rest@ =~= orig.subrange(i + 1, n as int));
        let kx = str_to_char_arr(to_lowercase(x.path.as_str()).as_str());
        let mut j: usize = 0;
        assert(out@.subrange(0, out.len() as int) =~= out@);
        while j < out.len() && entry_le_keyed(&out[j], &keys[j], &x, &kx)
            invariant
                j <= out.len(),
                keys.len() == out.len(),
                forall|m: int| 0 <= m < out.len() ==> (#[trigger] keys@[m])@ == lower_of(out@[m].path@),
                kx@ == lower_of(x.path@),
                insert_pos(out@, x) == j + insert_pos(out@.subrange(j as int, out.len() as int), x),
            decreases out.len() - j,
        {
            let ghost rest = out@.subrange(j as int, out.len() as int);
            assert(rest.drop_first() =~= out@.subrange(j + 1, out.len() as int));
            j = j + 1;
        }
        let ghost keys0 = keys@;
        let ghost out0 = out@;
        out.insert(j, x);
        keys.insert(j, kx);
        proof {
            assert forall|m: int| 0 <= m < out.len() implies (#[trigger] keys@[m])@ == lower_of(
                out@[m].path@,
            ) by {
                if m > j {
                    assert(keys@[m] == keys0[m - 1]);
                    assert(out@[m] == out0[m - 1]);
                } else if m < j {
                    assert(keys@[m] == keys0[m]);
                    assert(out@[m] == out0[m]);
                }
            }
        }
        i = i + 1;
    }
    assert(orig.subrange(0, n as int) =~= orig);
    out
}

/// Whether an entry is hidden.
pub fn entry_is_hidden(e: &Entry) -> (r: bool)
    ensures
        r == is_hidden(*e),
{
    e.name.unicode_len() > 0 && e.name.as_str().get_char(0) == '.'
}

/// The listing of a directory's entries: in listing order, and with the
/// hidden entries only when `show_hidden` is set.
pub fn sorted_listing(entries: Vec<Entry>, show_hidden: bool) -> (r: Vec<Entry>)
    ensures
        r@ == listing(entries@, show_hidden),
{
    let ghost orig = entries@;
    let sorted = sort_entries(entries);
    let ghost all = sorted@;
    let n = sorted.len();
    let mut rest = sorted;
    let mut out: Vec<Entry> = Vec::new();
    let mut i: usize = 0;
    while i < n
        invariant
            i <= n,
            n == all.len(),
            all == sorted_entries(orig),
            rest@ == all.subrange(i as int, n as int),
            out@ == all.subrange(0, i as int).filter(|e: Entry| shown(e, show_hidden)),
        decreases n - i,
    {
        let ghost pre = all.subrange(0, i as int);
        let ghost post = all.subrange(0, i + 1);
        assert(post.drop_last() =~= pre);
        let e = rest.remove(0);
        assert(rest@ =~= all.subrange(i + 1, n as int));
        let keep = show_hidden || !entry_is_hidden(&e);
        if keep {
            out.push(e);
        }
        proof {
            reveal(Seq::filter);
        }
        i = i + 1;
    }
    assert(all.subrange(0, n as int) =~= all);
    out
}

proof fn lemma_lex_le_total(a: Seq<char>, b: Seq<char>)
    ensures
        lex_le(a, b) || lex_le(b, a),
    decreases a.len(),
{
    if a.len() > 0 && b.len() > 0 && a[0] == b[0] {
        lemma_lex_le_total(a.drop_first(), b.drop_first());
    }
}

proof fn lemma_lex_le_trans(a: Seq<char>, b: Seq<char>, c: Seq<char>)
    requires
        lex_le(a, b),
        lex_le(b, c),
    ensures
        lex_le(a, c),
    decreases a.len(),
{
    if a.len() > 0 && b.len() > 0 && c.len() > 0 && a[0] == b[0] && b[0] == c[0] {
        lemma_lex_le_trans(a.drop_first(), b.drop_first(), c.drop_first());
    }
}

proof fn lemma_entry_le_total(a: Entry, b: Entry)
    ensures
        entry_le(a, b) || entry_le(b, a),
{
    lemma_lex_le_total(lower_of(a.path@), lower_of(b.path@));
}

proof fn lemma_entry_le_trans(a: Entry, b: Entry, c: Entry)
    requires
        entry_le(a, b),
        entry_le(b, c),
    ensures
        entry_le(a, c),
{
    if a.is_file == b.is_file && b.is_file == c.is_file {
        lemma_lex_le_trans(lower_of(a.path@), lower_of(b.path@), lower_of(c.path@));
    }
}

proof fn lemma_insert_pos(s: Seq<Entry>, x: Entry)
    ensures
        insert_pos(s, x) <= s.len(),
        forall|i: int| 0 <= i < insert_pos(s, x) ==> entry_le(#[trigger] s[i], x),
        insert_pos(s, x) < s.len() ==> !entry_le(s[insert_pos(s, x) as int], x),
    decreases s.len(),
{
    if s.len() > 0 && entry_le(s[0], x) {
        lemma_insert_pos(s.drop_first(), x);
        assert forall|i: int| 0 <= i < insert_pos(s, x) implies entry_le(#[trigger] s[i], x) by {
            if i > 0 {
                assert(s[i] == s.drop_first()[i - 1]);
            }
        }
    }
}

/// The listing order sorts: every entry is at most the ones after it.
pub proof fn lemma_sorted_entries_sorted(s: Seq<Entry>)
    ensures
        is_sorted(sorted_entries(s)),
        sorted_entries(s).len() == s.len(),
    decreases s.len(),
{
    if s.len() > 0 {
        let t = sorted_entries(s.drop_last());
        lemma_sorted_entries_sorted(s.drop_last());
        let x = s.last();
        let p = insert_pos(t, x) as int;
        lemma_insert_pos(t, x);
        let r = t.insert(p, x);
        if p < t.len() {
            lemma_entry_le_total(t[p], x);
        }
        assert forall|i: int, j: int| 0 <= i < j < r.len() implies entry_le(#[trigger] r[i], #[trigger] r[j]) by {
            if j < p {
                assert(r[i] == t[i] && r[j] == t[j]);
            } else if j == p {
                assert(r[i] == t[i]);
            } else if i == p {
                assert(r[j] == t[j - 1]);
                if j - 1 > p {
                    lemma_entry_le_trans(x, t[p], t[j - 1]);
                }
            } else if i < p {
                assert(r[i] == t[i] && r[j] == t[j - 1]);
            } else {
                assert(r[i] == t[i - 1] && r[j] == t[j - 1]);
            }
        }
    }
}

proof fn lemma_filter_sorted(t: Seq<Entry>, show_hidden: bool)
    requires
        is_sorted(t),
    ensures
        is_sorted(t.filter(|e: Entry| shown(e, show_hidden))),
    decreases t.len(),
{
    reveal(Seq::filter);
    if t.len() > 0 {
        let d = t.drop_last();
        assert(is_sorted(d)) by {
            assert forall|i: int, j: int| 0 <= i < j < d.len() implies entry_le(#[trigger] d[i], #[trigger] d[j]) by {
                assert(d[i] == t[i] && d[j] == t[j]);
            }
        }
        lemma_filter_sorted(d, show_hidden);
        let f = d.filter(|e: Entry| shown(e, show_hidden));
        if shown(t.last(), show_hidden) {
            let g = f.push(t.last());
            assert forall|i: int, j: int| 0 <= i < j < g.len() implies entry_le(#[trigger] g[i], #[trigger] g[j]) by {
                if j == g.len() - 1 {
                    assert(f.contains(f[i]));
                    d.lemma_filter_contains_rev(|e: Entry| shown(e, show_hidden), f[i]);
                    let k = choose|k: int| 0 <= k < d.len() && d[k] == f[i];
                    assert(t[k] == d[k]);
                } else {
                    assert(g[i] == f[i] && g[j] == f[j]);
                }
            }
        }
    }
}

proof fn lemma_filter_shown(t: Seq<Entry>)
    ensures
        t.filter(|e: Entry| shown(e, true)) == t,
        t.filter(|e: Entry| shown(e, false)) == t.filter(|e: Entry| !is_hidden(e)),
    decreases t.len(),
{
    reveal(Seq::filter);
    if t.len() > 0 {
        lemma_filter_shown(t.drop_last());
        assert(t.drop_last().push(t.last()) =~= t);
    }
}

/// Toggling hidden files changes only whether hidden entries appear: the
/// listing without them is the listing with them, hidden entries removed,
/// and both are in listing order.
pub proof fn lemma_toggle_hidden_only_filters(s: Seq<Entry>)
    ensures
        listing(s, false) == listing(s, true).filter(|e: Entry| !is_hidden(e)),
        is_sorted(listing(s, true)),
        is_sorted(listing(s, false)),
{
    lemma_sorted_entries_sorted(s);
    lemma_filter_shown(sorted_entries(s));
    lemma_filter_sorted(sorted_entries(s), true);
    lemma_filter_sorted(sorted_entries(s), false);
}

} // verus!
