//! The yank register and the decisions behind pasting: names, collisions, removal.

use vstd::prelude::*;

use crate::text::{str_eq, string_views};

verus! {

/// Whether the yank register holds paths to copy or to move.
#[derive(Clone, Copy, Debug, PartialEq, Eq, Structural)]
pub enum YankMode {
    Copying,
    Cutting,
}

/// The paths chosen by CopyFiles or CutFiles, waiting for PasteFiles.
#[derive(Clone, Debug)]
pub struct YankRegister {
    pub paths: Vec<String>,
    pub mode: Option<YankMode>,
}

impl YankRegister {
    /// An empty register.
    pub fn new() -> (r: YankRegister)
        ensures
            r.paths@.len() == 0,
            r.mode is None,
    {
        YankRegister { paths: Vec::new(), mode: None }
    }

    /// CopyFiles: the register holds `paths`, to be copied.
    pub fn copy_files(&mut self, paths: Vec<String>)
        ensures
            final(self).paths@ == paths@,
            final(self).mode == Some(YankMode::Copying),
    {
        self.paths = paths;
        self.mode = Some(YankMode::Copying);
    }

    /// CutFiles: the register holds `paths`, to be moved.
    pub fn cut_files(&mut self, paths: Vec<String>)
        ensures
            final(self).paths@ == paths@,
            final(self).mode == Some(YankMode::Cutting),
    {
        self.paths = paths;
        self.mode = Some(YankMode::Cutting);
    }
}

/// After copying a pasted source, whether to remove it: only when the
/// register was cut and the copy succeeded. A failed copy never removes
/// its source.
pub fn remove_after_copy(mode: Option<YankMode>, copied: bool) -> (r: bool)
    ensures
        r <==> (mode == Some(YankMode::Cutting) && copied),
        r ==> copied,
{
    match mode {
        Some(YankMode::Cutting) => copied,
        _ => false,
    }
}

/// The index of the last `c` in `s`, or -1.
pub open spec fn last_index_of(s: Seq<char>, c: char) -> int
    decreases s.len(),
{
    if s.len() == 0 {
        -1
    } else if s.last() == c {
        s.len() - 1
    } else {
        last_index_of(s.drop_last(), c)
    }
}

/// The index of the last `.` in `s`, or -1.
pub open spec fn last_dot(s: Seq<char>) -> int {
    last_index_of(s, '.')
}

/// The name that a pasted copy takes when `name` is taken: ` (Copy)` goes
/// before the extension of a file (`note.txt` gives `note (Copy).txt`), and
/// at the end of a directory's name or of a name without extension. A
/// leading dot starts no extension.
pub open spec fn copy_name_of(name: Seq<char>, is_dir: bool) -> Seq<char> {
    let d = last_dot(name);
    if !is_dir && d > 0 {
        name.subrange(0, d) + " (Copy)."@ + name.subrange(d + 1, name.len() as int)
    } else {
        name + " (Copy)"@
    }
}

/// `name` after `n` renamings.
pub open spec fn renamed(name: Seq<char>, is_dir: bool, n: nat) -> Seq<char>
    decreases n,
{
    if n == 0 {
        name
    } else {
        copy_name_of(renamed(name, is_dir, (n - 1) as nat), is_dir)
    }
}

/// How many times a colliding name is renamed before the paste of that
/// item is given up.
pub const MAX_COPIES: usize = 64;

/// The first of `name`'s renamings from the `k`-th on that is not taken,
/// up to `MAX_COPIES` renamings.
pub open spec fn first_free_from(name: Seq<char>, is_dir: bool, taken: Seq<Seq<char>>, k: nat) -> Option<nat>
    decreases MAX_COPIES + 1 - k,
{
    if k > MAX_COPIES {
        None
    } else if !taken.contains(renamed(name, is_dir, k)) {
        Some(k)
    } else {
        first_free_from(name, is_dir, taken, k + 1)
    }
}

/// The position of the last `c` in `cs`.
fn find_last(cs: &Vec<char>, c: char) -> (r: Option<usize>)
    ensures
        r matches Some(i) ==> i as int == last_index_of(cs@, c) && i < cs.len(),
        r is None ==> last_index_of(cs@, c) == -1,
{
    let mut i: usize = cs.len();
    assert(cs@.subrange(0, i as int) =~= cs@);
    while i > 0
        invariant
            i <= cs.len(),
            last_index_of(cs@, c) == last_index_of(cs@.subrange(0, i as int), c),
        decreases i,
    {
        let ghost pre = cs@.subrange(0, i as int);
        assert(pre.drop_last() =~= cs@.subrange(0, i - 1));
        if cs[i - 1] == c {
            return Some(i - 1);
        }
        i = i - 1;
    }
    assert(cs@.subrange(0, 0) =~= Seq::<char>::empty());
    None
}

/// The name that a pasted copy takes when `name` is taken.
pub fn copy_name(name: &str, is_dir: bool) -> (r: String)
    ensures
        r@ == copy_name_of(name@, is_dir),
{
    let cs = crate::text::str_to_char_arr(name);
    match find_last(&cs, '.') {
        Some(d) => {
            if !is_dir && d > 0 {
                let mut r = String::from_str(name.substring_char(0, d));
                r.append(" (Copy).");
                r.append(name.substring_char(d + 1, cs.len()));
                return r;
            }
        },
        None => {},
    }
    let mut r = String::from_str(name);
    r.append(" (Copy)");
    r
}

/// Whether `names` holds `s`.
pub fn contains_name(names: &Vec<String>, s: &str) -> (r: bool)
    ensures
        r == string_views(names@).contains(s@),
{
    let mut i: usize = 0;
    while i < names.len()
        invariant
            i <= names.len(),
            forall|j: int| 0 <= j < i ==> names@[j]@ != s@,
        decreases names.len() - i,
    {
        if str_eq(names[i].as_str(), s) {
            assert(string_views(names@)[i as int] == s@);
            return true;
        }
        i = i + 1;
    }
    assert(!string_views(names@).contains(s@)) by {
        if string_views(names@).contains(s@) {
            let j = choose|j: int| 0 <= j < names.len() && string_views(names@)[j] == s@;
            assert(names@[j]@ == s@);
        }
    }
    false
}

/// The name under which `name` can be pasted without clashing with `taken`:
/// the first of `name`, its first renaming, its second, ... that is free,
/// or `None` once `MAX_COPIES` renamings are all taken.
pub fn free_name(name: &str, is_dir: bool, taken: &Vec<String>) -> (r: Option<String>)
    ensures
        match first_free_from(name@, is_dir, string_views(taken@), 0) {
            Some(k) => r matches Some(n) && n@ == renamed(name@, is_dir, k),
            None => r is None,
        },
        r matches Some(n) ==> !string_views(taken@).contains(n@),
{
    let mut cur = String::from_str(name);
    let mut k: usize = 0;
    while k <= MAX_COPIES
        invariant
            k <= MAX_COPIES + 1,
            cur@ == renamed(name@, is_dir, k as nat),
            first_free_from(name@, is_dir, string_views(taken@), 0) == first_free_from(
                name@,
                is_dir,
                string_views(taken@),
                k as nat,
            ),
        decreases MAX_COPIES + 1 - k,
    {
        if !contains_name(taken, cur.as_str()) {
            return Some(cur);
        }
        cur = copy_name(cur.as_str(), is_dir);
        k = k + 1;
    }
    None
}

/// What a pasted source is on disk, as read just before the paste.
#[derive(Clone, Copy, Debug, PartialEq, Eq, Structural)]
pub enum EntryKind {
    File,
    Dir,
    Missing,
}

/// A path of the yank register and what it is on disk.
#[derive(Clone, Debug)]
pub struct PasteSource {
    pub path: String,
    pub kind: EntryKind,
}

/// Why a source is not pasted.
#[derive(Clone, Copy, Debug, PartialEq, Eq, Structural)]
pub enum SkipReason {
    /// The source no longer exists, or is neither a file nor a directory.
    NotFound,
    /// The source path has no last component.
    NoName,
    /// Every renaming up to `MAX_COPIES` is taken.
    NoFreeName,
}

/// What to do with one source of a paste.
#[derive(Clone, Debug)]
pub enum PasteStep {
    /// Copy `source` to `dest` (named `dest_name` in the target directory):
    /// a directory's contents are copied into `dest`, a file byte for byte.
    Copy { source: String, dest: String, dest_name: String, is_dir: bool },
    Skip { source: String, reason: SkipReason },
}

/// A paste step as values.
pub enum StepView {
    Copy { source: Seq<char>, dest: Seq<char>, dest_name: Seq<char>, is_dir: bool },
    Skip { source: Seq<char>, reason: SkipReason },
}

impl PasteStep {
    pub open spec fn view(&self) -> StepView {
        match self {
            PasteStep::Copy { source, dest, dest_name, is_dir } => StepView::Copy {
                source: source@,
                dest: dest@,
                dest_name: dest_name@,
                is_dir: *is_dir,
            },
            PasteStep::Skip { source, reason } => StepView::Skip { source: source@, reason: *reason },
        }
    }
}

/// The parent of a directory path: what precedes its last `/` (the root
/// for a top-level directory). The root and a path without `/` have none.
pub open spec fn parent_of(p: Seq<char>) -> Option<Seq<char>> {
    let i = last_index_of(p, '/');
    if i < 0 || p.len() <= 1 {
        None
    } else if i == 0 {
        Some("/"@)
    } else {
        Some(p.subrange(0, i))
    }
}

/// The parent of the directory `path`.
pub fn parent_path(path: &str) -> (r: Option<String>)
    ensures
        match parent_of(path@) {
            Some(q) => r matches Some(s) && s@ == q,
            None => r is None,
        },
{
    let cs = crate::text::str_to_char_arr(path);
    match find_last(&cs, '/') {
        Some(i) => {
            if cs.len() <= 1 {
                None
            } else if i == 0 {
                Some(String::from_str("/"))
            } else {
                Some(String::from_str(path.substring_char(0, i)))
            }
        },
        None => None,
    }
}

/// The last component of a path: what follows its last `/`.
pub open spec fn base_name_of(p: Seq<char>) -> Seq<char> {
    p.subrange(last_index_of(p, '/') + 1, p.len() as int)
}

/// `name` inside the directory `dir`; an absolute `name` stands for itself.
pub open spec fn joined(dir: Seq<char>, name: Seq<char>) -> Seq<char> {
    if name.len() > 0 && name[0] == '/' {
        name
    } else if dir.len() > 0 && dir.last() == '/' {
        dir + name
    } else {
        dir + "/"@ + name
    }
}

/// The step for the source at `path`, of kind `kind`, pasted into `dir`
/// where the names `taken` exist.
pub open spec fn step_of(dir: Seq<char>, path: Seq<char>, kind: EntryKind, taken: Seq<Seq<char>>) -> StepView {
    let base = base_name_of(path);
    let is_dir = kind == EntryKind::Dir;
    if kind == EntryKind::Missing {
        StepView::Skip { source: path, reason: SkipReason::NotFound }
    } else if base.len() == 0 {
        StepView::Skip { source: path, reason: SkipReason::NoName }
    } else {
        match first_free_from(base, is_dir, taken, 0) {
            Some(k) => StepView::Copy {
                source: path,
                dest: joined(dir, renamed(base, is_dir, k)),
                dest_name: renamed(base, is_dir, k),
                is_dir,
            },
            None => StepView::Skip { source: path, reason: SkipReason::NoFreeName },
        }
    }
}

/// The names taken once `step` is done.
pub open spec fn taken_after(taken: Seq<Seq<char>>, step: StepView) -> Seq<Seq<char>> {
    match step {
        StepView::Copy { dest_name, .. } => taken.push(dest_name),
        StepView::Skip { .. } => taken,
    }
}

pub open spec fn source_view(s: PasteSource) -> (Seq<char>, EntryKind) {
    (s.path@, s.kind)
}

/// The steps of pasting `sources` in order into `dir`, where the names
/// `existing` are taken, and the names taken afterwards. Each copy takes
/// the first free renaming of its source's name, free of the existing
/// names and of the names of the copies before it.
pub open spec fn plan_of(dir: Seq<char>, sources: Seq<(Seq<char>, EntryKind)>, existing: Seq<Seq<char>>) -> (
    Seq<StepView>,
    Seq<Seq<char>>,
)
    decreases sources.len(),
{
    if sources.len() == 0 {
        (Seq::empty(), existing)
    } else {
        let prev = plan_of(dir, sources.drop_last(), existing);
        let st = step_of(dir, sources.last().0, sources.last().1, prev.1);
        (prev.0.push(st), taken_after(prev.1, st))
    }
}

/// The last component of `path`.
pub fn base_name(path: &str) -> (r: String)
    ensures
        r@ == base_name_of(path@),
{
    let cs = crate::text::str_to_char_arr(path);
    let start: usize = match find_last(&cs, '/') {
        Some(i) => i + 1,
        None => 0,
    };
    String::from_str(path.substring_char(start, cs.len()))
}

/// `name` inside the directory `dir`.
pub fn join_path(dir: &str, name: &str) -> (r: String)
    ensures
        r@ == joined(dir@, name@),
{
    if name.unicode_len() > 0 && name.get_char(0) == '/' {
        return String::from_str(name);
    }
    let n = dir.unicode_len();
    let mut r = String::from_str(dir);
    if !(n > 0 && dir.get_char(n - 1) == '/') {
        r.append("/");
    }
    r.append(name);
    r
}

fn paste_step(dir: &str, src: &PasteSource, taken: &Vec<String>) -> (r: PasteStep)
    ensures
        r@ == step_of(dir@, src.path@, src.kind, string_views(taken@)),
{
    if src.kind == EntryKind::Missing {
        return PasteStep::Skip { source: src.path.clone(), reason: SkipReason::NotFound };
    }
    let base = base_name(src.path.as_str());
    if base.unicode_len() == 0 {
        return PasteStep::Skip { source: src.path.clone(), reason: SkipReason::NoName };
    }
    let is_dir = src.kind == EntryKind::Dir;
    match free_name(base.as_str(), is_dir, taken) {
        Some(name) => {
            let dest = join_path(dir, name.as_str());
            PasteStep::Copy { source: src.path.clone(), dest, dest_name: name, is_dir }
        },
        None => PasteStep::Skip { source: src.path.clone(), reason: SkipReason::NoFreeName },
    }
}

/// PasteFiles: the steps that paste `sources` in order into the directory
/// `dir`, whose entries are named `existing`. Every source gets a step; a
/// missing source, one without a name, or one whose renamings are all taken
/// is skipped, and the others go on.
pub fn plan_paste(dir: &str, sources: &Vec<PasteSource>, existing: &Vec<String>) -> (r: Vec<PasteStep>)
    ensures
        r@.map_values(|s: PasteStep| s@) == plan_of(
            dir@,
            sources@.map_values(|s: PasteSource| source_view(s)),
            string_views(existing@),
        ).0,
{
    let ghost sv = sources@.map_values(|s: PasteSource| source_view(s));
    let mut steps: Vec<PasteStep> = Vec::new();
    let mut taken: Vec<String> = existing.clone();
    proof {
        assert(string_views(taken@) =~= string_views(existing@)) by {
            assert forall|j: int| 0 <= j < taken.len() implies taken@[j] == existing@[j] by {
                assert(cloned::<String>(existing@[j], taken@[j]));
            }
        }
    }
    let mut i: usize = 0;
    while i < sources.len()
        invariant
            i <= sources.len(),
            sv == sources@.map_values(|s: PasteSource| source_view(s)),
            plan_of(dir@, sv.subrange(0, i as int), string_views(existing@)) == (
                steps@.map_values(|s: PasteStep| s@),
                string_views(taken@),
            ),
        decreases sources.len() - i,
    {
        let ghost pre = sv.subrange(0, i as int);
        assert(sv.subrange(0, i + 1).drop_last() =~= pre);
        let st = paste_step(dir, &sources[i], &taken);
        match &st {
            PasteStep::Copy { dest_name, .. } => {
                taken.push(dest_name.clone());
            },
            PasteStep::Skip { .. } => {},
        }
        steps.push(st);
        assert(steps@.map_values(|s: PasteStep| s@) =~= plan_of(dir@, pre, string_views(existing@)).0.push(st@));
        assert(string_views(taken@) =~= taken_after(plan_of(dir@, pre, string_views(existing@)).1, st@));
        i = i + 1;
    }
    assert(sv.subrange(0, sources.len() as int) =~= sv);
    steps
}

/// The name that a step creates, if it copies.
pub open spec fn created_name(st: StepView) -> Option<Seq<char>> {
    match st {
        StepView::Copy { dest_name, .. } => Some(dest_name),
        StepView::Skip { .. } => None,
    }
}

proof fn lemma_first_free_is_free(name: Seq<char>, is_dir: bool, taken: Seq<Seq<char>>, k: nat)
    ensures
        first_free_from(name, is_dir, taken, k) matches Some(j) ==> !taken.contains(
            renamed(name, is_dir, j),
        ),
    decreases MAX_COPIES + 1 - k,
{
    if k <= MAX_COPIES && taken.contains(renamed(name, is_dir, k)) {
        lemma_first_free_is_free(name, is_dir, taken, k + 1);
    }
}

/// A paste never produces a name collision: no copy takes a name that
/// exists in the target directory, and no two copies of one paste take the
/// same name.
pub proof fn lemma_paste_names_never_collide(
    dir: Seq<char>,
    sources: Seq<(Seq<char>, EntryKind)>,
    existing: Seq<Seq<char>>,
)
    ensures
        ({
            let steps = plan_of(dir, sources, existing).0;
            &&& forall|i: int|
                0 <= i < steps.len() && (#[trigger] created_name(steps[i])) is Some
                    ==> !existing.contains(created_name(steps[i])->0)
            &&& forall|i: int, j: int|
                0 <= i < j < steps.len() && (#[trigger] created_name(steps[i])) is Some
                    && (#[trigger] created_name(steps[j])) is Some ==> created_name(steps[i])
                    != created_name(steps[j])
        }),
{
    lemma_plan_taken(dir, sources, existing);
}

proof fn lemma_plan_taken(dir: Seq<char>, sources: Seq<(Seq<char>, EntryKind)>, existing: Seq<Seq<char>>)
    ensures
        ({
            let (steps, taken) = plan_of(dir, sources, existing);
            &&& steps.len() == sources.len()
            &&& forall|n: Seq<char>| existing.contains(n) ==> taken.contains(n)
            &&& forall|i: int|
                0 <= i < steps.len() && (#[trigger] created_name(steps[i])) is Some
                    ==> taken.contains(created_name(steps[i])->0)
            &&& forall|i: int|
                0 <= i < steps.len() && (#[trigger] created_name(steps[i])) is Some
                    ==> !existing.contains(created_name(steps[i])->0)
            &&& forall|i: int, j: int|
                0 <= i < j < steps.len() && (#[trigger] created_name(steps[i])) is Some
                    && (#[trigger] created_name(steps[j])) is Some ==> created_name(steps[i])
                    != created_name(steps[j])
        }),
    decreases sources.len(),
{
    if sources.len() > 0 {
        let prev = plan_of(dir, sources.drop_last(), existing);
        lemma_plan_taken(dir, sources.drop_last(), existing);
        let path = sources.last().0;
        let kind = sources.last().1;
        let st = step_of(dir, path, kind, prev.1);
        let base = base_name_of(path);
        lemma_first_free_is_free(base, kind == EntryKind::Dir, prev.1, 0);
        let (steps, taken) = plan_of(dir, sources, existing);
        assert(steps == prev.0.push(st));
        assert forall|n: Seq<char>| prev.1.contains(n) implies taken.contains(n) by {
            let j = choose|j: int| 0 <= j < prev.1.len() && prev.1[j] == n;
            assert(taken[j] == n);
        }
        if created_name(st) is Some {
            assert(taken[taken.len() - 1] == created_name(st)->0);
        }
        assert forall|i: int|
            0 <= i < steps.len() && (#[trigger] created_name(steps[i])) is Some implies taken.contains(
            created_name(steps[i])->0) by {
            if i < steps.len() - 1 {
                assert(steps[i] == prev.0[i]);
            }
        }
        assert forall|i: int, j: int|
            0 <= i < j < steps.len() && (#[trigger] created_name(steps[i])) is Some
                && (#[trigger] created_name(steps[j])) is Some implies created_name(steps[i])
            != created_name(steps[j]) by {
            assert(steps[i] == prev.0[i]);
            if j < steps.len() - 1 {
                assert(steps[j] == prev.0[j]);
            } else {
                assert(prev.1.contains(created_name(prev.0[i])->0));
            }
        }
        assert forall|i: int|
            0 <= i < steps.len() && (#[trigger] created_name(steps[i])) is Some implies !existing.contains(
            created_name(steps[i])->0) by {
            if i < steps.len() - 1 {
                assert(steps[i] == prev.0[i]);
            }
        }
    }
}

} // verus!
