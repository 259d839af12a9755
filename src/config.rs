//! Reading the binding tables from the default and the user configuration.

use vstd::prelude::*;

use configparser::ini::Ini;
use regex::Regex;

use crate::action::{Action, action_named};
use crate::bindings::BindingTable;
use crate::keys::{KeyCode, KeyPress, normalized};
use crate::text::{str_eq, str_to_char_arr, string_of_chars, string_views};

verus! {

/// The bindings that apply when no user configuration overrides them.
pub const DEFAULT_CONFIG: &'static str = "[normal]
j = MoveDown
k = MoveUp
h = MoveUpDir
l = EnterDir
q = Quit
gg = MoveToTop
G = MoveToBottom
yy = CopyFiles
dd = CutFiles
p = PasteFiles
: = OpenCommandMode
b = ToggleBookmark
v = ToggleVisualMode
z = ToggleHiddenFiles
<C-w><C-h> = MoveToLeftPanel
<C-w><C-l> = MoveToRightPanel
<C-h> = MoveToLeftPanel
<C-l> = MoveToRightPanel

[visual]
j = MoveDown
k = MoveUp
q = Quit
gg = MoveToTop
G = MoveToBottom
yy = CopyFiles
dd = CutFiles
p = PasteFiles
: = OpenCommandMode
v = ToggleVisualMode
";

/// A token of a chord spec: an escape in angle brackets, or one character.
pub const CHORD_TOKEN: &'static str = "<[.|[^<>]]+>|.";

/// What a regex search with `pattern` over `text` yields: `None` where the
/// pattern does not compile, else the matched substrings in order.
pub uninterp spec fn regex_find_all(pattern: Seq<char>, text: Seq<char>) -> Option<Seq<Seq<char>>>;

/// What configparser reads from `text` with `=` as the only delimiter and
/// case-sensitive names: `None` where it rejects the text, else the keys and
/// values of each section.
pub uninterp spec fn ini_read(text: Seq<char>) -> Option<Map<Seq<char>, Map<Seq<char>, Option<Seq<char>>>>>;

pub open spec fn views(v: Seq<String>) -> Seq<Seq<char>> {
    v.map_values(|s: String| s@)
}

pub open spec fn opt_view(v: Option<String>) -> Option<Seq<char>> {
    match v {
        Some(s) => Some(s@),
        None => None,
    }
}

/// One `key = value` line of a configuration section, as views.
pub open spec fn entry_view(e: (String, Option<String>)) -> (Seq<char>, Option<Seq<char>>) {
    (e.0@, opt_view(e.1))
}

pub open spec fn entry_views(es: Seq<(String, Option<String>)>) -> Seq<(Seq<char>, Option<Seq<char>>)> {
    es.map_values(|e: (String, Option<String>)| entry_view(e))
}

/// The map from key to value that a list of entries denotes.
pub open spec fn entries_map(es: Seq<(Seq<char>, Option<Seq<char>>)>) -> Map<Seq<char>, Option<Seq<char>>>
    decreases es.len(),
{
    if es.len() == 0 {
        Map::empty()
    } else {
        entries_map(es.drop_last()).insert(es.last().0, es.last().1)
    }
}

pub open spec fn keys_distinct(es: Seq<(Seq<char>, Option<Seq<char>>)>) -> bool {
    forall|i: int, j: int| 0 <= i < es.len() && 0 <= j < es.len() && i != j ==> es[i].0 != es[j].0
}

/// A section of what configparser read; a missing section has no entries.
pub open spec fn section_of(
    m: Map<Seq<char>, Map<Seq<char>, Option<Seq<char>>>>,
    section: Seq<char>,
) -> Map<Seq<char>, Option<Seq<char>>> {
    if m.contains_key(section) {
        m[section]
    } else {
        Map::empty()
    }
}

/// Relies on regex's `Regex::new` (which fails on a pattern that does not
/// compile) and `Regex::find_iter`: the matches depend on the pattern and the
/// text alone.
#[verifier::external_body]
fn regex_matches(pattern: &str, text: &str) -> (r: Option<Vec<String>>)
    ensures
        r matches Some(v) ==> regex_find_all(pattern@, text@) == Some(views(v@)),
        r is None ==> regex_find_all(pattern@, text@) is None,
{
    match Regex::new(pattern) {
        Ok(re) => Some(re.find_iter(text).map(|m| m.as_str().to_string()).collect()),
        Err(_) => None,
    }
}

/// Relies on configparser's `Ini::read`, set up with `=` as the only
/// delimiter and case-sensitive names: it fails on text it rejects, and
/// otherwise maps each section to its keys and values. The entries of
/// `section` come out in the order in which that map is walked, which is
/// not fixed.
#[verifier::external_body]
fn ini_section(text: &str, section: &str) -> (r: Result<Vec<(String, Option<String>)>, String>)
    ensures
        r is Err <==> ini_read(text@) is None,
        r matches Ok(es) ==> keys_distinct(entry_views(es@)) && entries_map(entry_views(es@))
            == section_of(ini_read(text@)->0, section@),
{
    let mut config = Ini::new();
    let mut defaults = config.defaults();
    defaults.delimiters = vec!['='];
    defaults.case_sensitive = true;
    config.load_defaults(defaults);
    let map = config.read(text.to_string())?;
    Ok(map.get(section).map(|m| m.iter().map(|(k, v)| (k.clone(), v.clone())).collect()).unwrap_or_default())
}

/// The key press that one token of a chord spec stands for: a character
/// stands for itself, `<lt>`, `<gt>` and `<Space>` for `<`, `>` and a
/// space, and `<C-x>` (or `<c-x>`) for Control and `x`. Other tokens stand
/// for nothing.
pub open spec fn key_of_token(t: Seq<char>) -> Option<KeyPress> {
    if t.len() == 1 {
        Some(normalized(KeyCode::Char(t[0]), false, false, false))
    } else if t == "<lt>"@ {
        Some(normalized(KeyCode::Char('<'), false, false, false))
    } else if t == "<gt>"@ {
        Some(normalized(KeyCode::Char('>'), false, false, false))
    } else if t == "<Space>"@ {
        Some(normalized(KeyCode::Char(' '), false, false, false))
    } else if t.len() == 5 && t[0] == '<' && (t[1] == 'C' || t[1] == 'c') && t[2] == '-' && t[4]
        == '>' {
        Some(normalized(KeyCode::Char(t[3]), true, false, false))
    } else {
        None
    }
}

/// The chord that a list of tokens stands for.
pub open spec fn chord_of_tokens(ts: Seq<Seq<char>>) -> Seq<KeyPress>
    decreases ts.len(),
{
    if ts.len() == 0 {
        Seq::empty()
    } else {
        let rest = chord_of_tokens(ts.drop_last());
        match key_of_token(ts.last()) {
            Some(k) => rest.push(k),
            None => rest,
        }
    }
}

/// The chord that a chord spec stands for.
pub open spec fn chord_of_spec(s: Seq<char>) -> Seq<KeyPress> {
    match regex_find_all(CHORD_TOKEN@, s) {
        Some(ts) => chord_of_tokens(ts),
        None => Seq::empty(),
    }
}

/// The key press of one token of a chord spec.
pub fn key_from_token(t: &str) -> (r: Option<KeyPress>)
    ensures
        r == key_of_token(t@),
{
    let n = t.unicode_len();
    if n == 1 {
        Some(KeyPress::plain(t.get_char(0)))
    } else if str_eq(t, "<lt>") {
        Some(KeyPress::plain('<'))
    } else if str_eq(t, "<gt>") {
        Some(KeyPress::plain('>'))
    } else if str_eq(t, "<Space>") {
        Some(KeyPress::plain(' '))
    } else if n == 5 && t.get_char(0) == '<' && (t.get_char(1) == 'C' || t.get_char(1) == 'c')
        && t.get_char(2) == '-' && t.get_char(4) == '>' {
        Some(KeyPress::control(t.get_char(3)))
    } else {
        None
    }
}

/// The chord that a list of tokens stands for.
pub fn chord_from_tokens(tokens: &Vec<String>) -> (r: Vec<KeyPress>)
    ensures
        r@ == chord_of_tokens(views(tokens@)),
{
    let mut output: Vec<KeyPress> = Vec::new();
    let mut i: usize = 0;
    while i < tokens.len()
        invariant
            i <= tokens.len(),
            output@ == chord_of_tokens(views(tokens@).subrange(0, i as int)),
        decreases tokens.len() - i,
    {
        let ghost before = views(tokens@).subrange(0, i as int);
        let ghost after = views(tokens@).subrange(0, i + 1);
        assert(after.drop_last() =~= before);
        match key_from_token(tokens[i].as_str()) {
            Some(k) => output.push(k),
            None => {},
        }
        i = i + 1;
    }
    assert(views(tokens@).subrange(0, tokens.len() as int) =~= views(tokens@));
    output
}

/// The chord that a chord spec such as `gg` or `<C-w><C-h>` stands for.
pub fn str_to_key_events(s: &str) -> (r: Vec<KeyPress>)
    ensures
        r@ == chord_of_spec(s@),
{
    match regex_matches(CHORD_TOKEN, s) {
        Some(tokens) => chord_from_tokens(&tokens),
        None => Vec::new(),
    }
}

/// The table that the entries `es` of a configuration section give, laid
/// over `m`: each `chord = ActionName` entry with a known action name binds
/// its chord, later entries over earlier ones; other entries are ignored.
pub open spec fn apply_entries(
    m: Map<Seq<KeyPress>, Action>,
    es: Seq<(Seq<char>, Option<Seq<char>>)>,
) -> Map<Seq<KeyPress>, Action>
    decreases es.len(),
{
    if es.len() == 0 {
        m
    } else {
        let prev = apply_entries(m, es.drop_last());
        let e = es.last();
        match e.1 {
            Some(v) => match action_named(v) {
                Some(a) => prev.insert(chord_of_spec(e.0), a),
                None => prev,
            },
            None => prev,
        }
    }
}

/// Binds the chord of each entry with a known action name, in order.
pub fn add_entries(table: &mut BindingTable, entries: &Vec<(String, Option<String>)>)
    requires
        old(table).wf(),
    ensures
        final(table).wf(),
        final(table)@ == apply_entries(old(table)@, entry_views(entries@)),
{
    let ghost start = table@;
    let mut i: usize = 0;
    while i < entries.len()
        invariant
            i <= entries.len(),
            table.wf(),
            table@ == apply_entries(start, entry_views(entries@).subrange(0, i as int)),
        decreases entries.len() - i,
    {
        let ghost before = entry_views(entries@).subrange(0, i as int);
        let ghost after = entry_views(entries@).subrange(0, i + 1);
        assert(after.drop_last() =~= before);
        let (k, v) = &entries[i];
        match v {
            Some(name) => match Action::from_name(name.as_str()) {
                Some(a) => {
                    let chord = str_to_key_events(k.as_str());
                    table.insert(chord, a);
                },
                None => {},
            },
            None => {},
        }
        i = i + 1;
    }
    assert(entry_views(entries@).subrange(0, entries.len() as int) =~= entry_views(entries@));
}

/// `d` lists the entries of `section` in `text`, in some order; a text that
/// does not parse lists none.
pub open spec fn lists_section(
    d: Seq<(Seq<char>, Option<Seq<char>>)>,
    text: Seq<char>,
    section: Seq<char>,
) -> bool {
    match ini_read(text) {
        Some(m) => keys_distinct(d) && entries_map(d) == section_of(m, section),
        None => d.len() == 0,
    }
}

/// Splitting `s` into pieces: the pieces so far, and whether the next
/// character starts a line. A new piece starts at each line that begins
/// with `[`, unless nothing precedes it.
pub open spec fn chunk_state(s: Seq<char>) -> (Seq<Seq<char>>, bool)
    decreases s.len(),
{
    if s.len() == 0 {
        (seq![Seq::empty()], true)
    } else {
        let prev = chunk_state(s.drop_last());
        let cs = prev.0;
        let c = s.last();
        if c == '[' && prev.1 && cs.last().len() > 0 {
            (cs.push(seq!['[']), false)
        } else {
            (cs.update(cs.len() - 1, cs.last().push(c)), c == '\n')
        }
    }
}

/// `s` cut before each line that starts with `[`: one piece for what comes
/// before the first section header, and one for each section. The pieces
/// are parsed one by one, so that a piece that does not parse costs only
/// its own section.
pub open spec fn section_chunks(s: Seq<char>) -> Seq<Seq<char>> {
    chunk_state(s).0
}

proof fn lemma_chunk_state_nonempty(s: Seq<char>)
    ensures
        chunk_state(s).0.len() >= 1,
    decreases s.len(),
{
    if s.len() > 0 {
        lemma_chunk_state_nonempty(s.drop_last());
    }
}

/// The pieces of `text` cut before each line that starts with `[`.
pub fn split_section_chunks(text: &str) -> (r: Vec<String>)
    ensures
        string_views(r@) == section_chunks(text@),
{
    let cs = str_to_char_arr(text);
    let mut done: Vec<String> = Vec::new();
    let mut cur: Vec<char> = Vec::new();
    let mut line_start = true;
    let mut i: usize = 0;
    assert(cs@.subrange(0, 0) =~= Seq::<char>::empty());
    assert(string_views(done@).push(cur@) =~= seq![Seq::<char>::empty()]);
    while i < cs.len()
        invariant
            cs@ == text@,
            i <= cs.len(),
            chunk_state(cs@.subrange(0, i as int)) == (string_views(done@).push(cur@), line_start),
        decreases cs.len() - i,
    {
        let c = cs[i];
        let ghost pre = cs@.subrange(0, i as int);
        assert(cs@.subrange(0, i + 1).drop_last() =~= pre);
        let ghost before = string_views(done@);
        if c == '[' && line_start && cur.len() > 0 {
            let piece = string_of_chars(&cur);
            done.push(piece);
            cur = Vec::new();
            cur.push('[');
            assert(string_views(done@) =~= before.push(piece@));
            assert(string_views(done@).push(cur@) =~= before.push(piece@).push(seq!['[']));
        } else {
            cur.push(c);
            assert(string_views(done@).push(cur@) =~= before.push(cur@.drop_last()).update(
                before.len() as int,
                cur@,
            ));
        }
        line_start = c == '\n';
        i = i + 1;
    }
    assert(cs@.subrange(0, cs.len() as int) =~= cs@);
    let last = string_of_chars(&cur);
    let ghost before = string_views(done@);
    done.push(last);
    assert(string_views(done@) =~= before.push(cur@));
    done
}

/// `u` lists the entries of `section` in each piece of `chunks`, in order.
pub open spec fn lists_chunks(
    us: Seq<Seq<(Seq<char>, Option<Seq<char>>)>>,
    chunks: Seq<Seq<char>>,
    section: Seq<char>,
) -> bool {
    &&& us.len() == chunks.len()
    &&& forall|i: int| 0 <= i < us.len() ==> lists_section(#[trigger] us[i], chunks[i], section)
}

/// The table that the entry lists `us` give, one after the other, over `m`.
pub open spec fn apply_layers(
    m: Map<Seq<KeyPress>, Action>,
    us: Seq<Seq<(Seq<char>, Option<Seq<char>>)>>,
) -> Map<Seq<KeyPress>, Action>
    decreases us.len(),
{
    if us.len() == 0 {
        m
    } else {
        apply_entries(apply_layers(m, us.drop_last()), us.last())
    }
}

/// The pieces of the user configuration: none where there is none.
pub open spec fn user_chunks(user_text: Option<Seq<char>>) -> Seq<Seq<char>> {
    match user_text {
        Some(t) => section_chunks(t),
        None => Seq::empty(),
    }
}

/// `m` is the table of `section`: the table of the default text's entries,
/// with the table of the user's entries laid over it (a chord the user
/// binds gets the user's action, the other default bindings stay). Each
/// piece of the user text is read on its own; a piece that does not parse
/// gives no entries. Each section is walked in some order.
pub open spec fn loaded_section(
    m: Map<Seq<KeyPress>, Action>,
    default_text: Seq<char>,
    user_text: Option<Seq<char>>,
    section: Seq<char>,
) -> bool {
    exists|d: Seq<(Seq<char>, Option<Seq<char>>)>, us: Seq<Seq<(Seq<char>, Option<Seq<char>>)>>|
        {
            &&& lists_section(d, default_text, section)
            &&& lists_chunks(us, user_chunks(user_text), section)
            &&& m == #[trigger] apply_entries(Map::empty(), d).union_prefer_right(
                apply_layers(Map::empty(), us),
            )
        }
}

/// The Normal and Visual tables read from the configuration.
#[derive(Clone, Debug)]
pub struct LoadedBindings {
    pub normal: BindingTable,
    pub visual: BindingTable,
    /// Some piece of the user configuration could not be parsed; the
    /// sections in it keep the default bindings.
    pub user_config_rejected: bool,
}

/// The entries of `section` in `text`, or none where the text does not parse.
fn section_entries(text: &str, section: &str) -> (r: Vec<(String, Option<String>)>)
    ensures
        lists_section(entry_views(r@), text@, section@),
{
    match ini_section(text, section) {
        Ok(es) => es,
        Err(_) => Vec::new(),
    }
}

fn load_section(default_text: &str, chunks: &Vec<String>, section: &str) -> (r: BindingTable)
    ensures
        r.wf(),
        exists|d: Seq<(Seq<char>, Option<Seq<char>>)>, us: Seq<Seq<(Seq<char>, Option<Seq<char>>)>>|
            {
                &&& lists_section(d, default_text@, section@)
                &&& lists_chunks(us, string_views(chunks@), section@)
                &&& r@ == #[trigger] apply_entries(Map::empty(), d).union_prefer_right(
                    apply_layers(Map::empty(), us),
                )
            },
{
    let mut table = BindingTable::new();
    let d = section_entries(default_text, section);
    add_entries(&mut table, &d);
    let ghost base = table@;
    let ghost mut us: Seq<Seq<(Seq<char>, Option<Seq<char>>)>> = Seq::empty();
    let mut i: usize = 0;
    while i < chunks.len()
        invariant
            i <= chunks.len(),
            table.wf(),
            base == apply_entries(Map::empty(), entry_views(d@)),
            lists_section(entry_views(d@), default_text@, section@),
            us.len() == i,
            forall|j: int| 0 <= j < i ==> lists_section(#[trigger] us[j], chunks@[j]@, section@),
            table@ == apply_layers(base, us),
        decreases chunks.len() - i,
    {
        let es = section_entries(chunks[i].as_str(), section);
        add_entries(&mut table, &es);
        proof {
            let prev = us;
            us = us.push(entry_views(es@));
            assert(us.drop_last() =~= prev);
        }
        i = i + 1;
    }
    proof {
        lemma_apply_layers_over(base, us);
        assert(lists_chunks(us, string_views(chunks@), section@));
        assert(table@ == apply_entries(Map::empty(), entry_views(d@)).union_prefer_right(
            apply_layers(Map::empty(), us),
        ));
    }
    table
}

pub open spec fn opt_str_view(t: Option<&str>) -> Option<Seq<char>> {
    match t {
        Some(s) => Some(s@),
        None => None,
    }
}

/// Whether every piece in `chunks` parses.
fn chunks_parse(chunks: &Vec<String>) -> (r: bool)
    ensures
        r == forall|i: int| 0 <= i < chunks.len() ==> (#[trigger] ini_read(chunks@[i]@)) is Some,
{
    let mut i: usize = 0;
    while i < chunks.len()
        invariant
            i <= chunks.len(),
            forall|j: int| 0 <= j < i ==> (#[trigger] ini_read(chunks@[j]@)) is Some,
        decreases chunks.len() - i,
    {
        if ini_section(chunks[i].as_str(), "normal").is_err() {
            return false;
        }
        i = i + 1;
    }
    true
}

/// Reads the binding tables: the sections `normal` and `visual` of the
/// default configuration, then of the user configuration (if any) over
/// them. The user text is read piece by piece, one piece per section
/// header: a piece that does not parse is reported and left out, so its
/// section keeps the defaults while the other sections still apply.
pub fn read_config(default_text: &str, user_text: Option<&str>) -> (r: LoadedBindings)
    ensures
        r.normal.wf(),
        r.visual.wf(),
        loaded_section(r.normal@, default_text@, opt_str_view(user_text), "normal"@),
        loaded_section(r.visual@, default_text@, opt_str_view(user_text), "visual"@),
        r.user_config_rejected == exists|i: int|
            0 <= i < user_chunks(opt_str_view(user_text)).len() && (#[trigger] ini_read(
                user_chunks(opt_str_view(user_text))[i],
            )) is None,
{
    let chunks: Vec<String> = match user_text {
        Some(t) => split_section_chunks(t),
        None => Vec::new(),
    };
    assert(string_views(chunks@) == user_chunks(opt_str_view(user_text)));
    let all_parse = chunks_parse(&chunks);
    proof {
        let uc = user_chunks(opt_str_view(user_text));
        assert forall|i: int| 0 <= i < uc.len() implies uc[i] == chunks@[i]@ by {
            assert(string_views(chunks@)[i] == chunks@[i]@);
        }
        if !all_parse {
            let j = choose|j: int| 0 <= j < chunks.len() && !(ini_read(chunks@[j]@) is Some);
            assert(ini_read(uc[j]) is None);
        } else {
            assert forall|i: int| 0 <= i < uc.len() implies !(#[trigger] ini_read(uc[i]) is None) by {
                assert(ini_read(chunks@[i]@) is Some);
            }
        }
    }
    LoadedBindings {
        normal: load_section(default_text, &chunks, "normal"),
        visual: load_section(default_text, &chunks, "visual"),
        user_config_rejected: !all_parse,
    }
}

/// Laying several entry lists over a table is laying their joint table
/// over it.
pub proof fn lemma_apply_layers_over(
    m: Map<Seq<KeyPress>, Action>,
    us: Seq<Seq<(Seq<char>, Option<Seq<char>>)>>,
)
    ensures
        apply_layers(m, us) == m.union_prefer_right(apply_layers(Map::empty(), us)),
    decreases us.len(),
{
    if us.len() == 0 {
        assert(m =~= m.union_prefer_right(Map::empty()));
    } else {
        let u = us.last();
        lemma_apply_layers_over(m, us.drop_last());
        let l = apply_layers(Map::empty(), us.drop_last());
        lemma_apply_entries_layers(apply_layers(m, us.drop_last()), u);
        lemma_apply_entries_layers(l, u);
        let a = apply_entries(Map::empty(), u);
        assert(m.union_prefer_right(l).union_prefer_right(a) =~= m.union_prefer_right(
            l.union_prefer_right(a),
        ));
    }
}

/// Laying entries over a table keeps what they do not bind and replaces
/// what they do.
pub proof fn lemma_apply_entries_layers(
    m: Map<Seq<KeyPress>, Action>,
    es: Seq<(Seq<char>, Option<Seq<char>>)>,
)
    ensures
        apply_entries(m, es) == m.union_prefer_right(apply_entries(Map::empty(), es)),
    decreases es.len(),
{
    if es.len() > 0 {
        lemma_apply_entries_layers(m, es.drop_last());
        assert(apply_entries(m, es) =~= m.union_prefer_right(apply_entries(Map::empty(), es)));
    } else {
        assert(m =~= m.union_prefer_right(Map::empty()));
    }
}

/// User entries override defaults: a chord that the user entries bind gets
/// the user's action, whatever the defaults said; a chord that only the
/// defaults bind keeps the default action; no other chord is bound.
pub proof fn lemma_user_entries_override_defaults(
    d: Seq<(Seq<char>, Option<Seq<char>>)>,
    u: Seq<(Seq<char>, Option<Seq<char>>)>,
    c: Seq<KeyPress>,
)
    ensures
        ({
            let dm = apply_entries(Map::empty(), d);
            let um = apply_entries(Map::empty(), u);
            let m = apply_entries(dm, u);
            &&& m.contains_key(c) <==> (dm.contains_key(c) || um.contains_key(c))
            &&& um.contains_key(c) ==> m[c] == um[c]
            &&& !um.contains_key(c) && dm.contains_key(c) ==> m[c] == dm[c]
        }),
{
    lemma_apply_entries_layers(apply_entries(Map::empty(), d), u);
}

/// In a loaded table, the user's bindings win: a chord that the user's
/// entries bind has the user's action, and every other chord is bound as
/// the default entries bind it (or not at all).
pub proof fn lemma_loaded_user_overrides(
    m: Map<Seq<KeyPress>, Action>,
    default_text: Seq<char>,
    user_text: Option<Seq<char>>,
    section: Seq<char>,
    c: Seq<KeyPress>,
)
    requires
        loaded_section(m, default_text, user_text, section),
    ensures
        exists|d: Seq<(Seq<char>, Option<Seq<char>>)>, us: Seq<Seq<(Seq<char>, Option<Seq<char>>)>>|
            {
                let dm = apply_entries(Map::empty(), d);
                let um = apply_layers(Map::empty(), us);
                &&& #[trigger] lists_section(d, default_text, section)
                &&& #[trigger] lists_chunks(us, user_chunks(user_text), section)
                &&& um.contains_key(c) ==> m.contains_key(c) && m[c] == um[c]
                &&& !um.contains_key(c) ==> (m.contains_key(c) <==> dm.contains_key(c))
                &&& !um.contains_key(c) && dm.contains_key(c) ==> m[c] == dm[c]
            },
{
    let (d, us) = choose|d: Seq<(Seq<char>, Option<Seq<char>>)>, us: Seq<Seq<(Seq<char>, Option<Seq<char>>)>>|
        {
            &&& lists_section(d, default_text, section)
            &&& lists_chunks(us, user_chunks(user_text), section)
            &&& m == #[trigger] apply_entries(Map::empty(), d).union_prefer_right(
                apply_layers(Map::empty(), us),
            )
        };
    assert(lists_section(d, default_text, section) && lists_chunks(us, user_chunks(user_text), section));
}

} // verus!
