//! The mode machine: key presses in, state changes and outside work out.

use vstd::prelude::*;

use crate::action::Action;
use crate::bindings::BindingTable;
use crate::command_line::{CommandLine, LineState, Submission, typed, backspaced, tabbed, back_tabbed, history_up, history_down};
use crate::command_mode::{CommandMode, command_list, find_command};
use crate::config::LoadedBindings;
use crate::files::{YankMode, YankRegister, base_name, base_name_of, join_path, joined, parent_of, parent_path};
use crate::keys::{KeyCode, KeyPress};
use crate::listing::{Entry, listing, sorted_listing};
use crate::resolver::{ChordResolver, Resolution, resolve};
use crate::text::{str_eq, string_views, words_of};
use crate::ui::{ActivePanel, Ui};

verus! {

/// A named directory in the bookmark list.
#[derive(Clone, Debug)]
pub struct Bookmark {
    pub name: String,
    pub path: String,
}

/// The mode of the key-handling state machine. Normal is the initial one.
#[derive(Clone, Copy, Debug, PartialEq, Eq, Structural)]
pub enum ActiveMode {
    Normal,
    Command,
    Visual,
}

/// Where the file-list cursor goes once a directory has been read.
#[derive(Clone, Debug)]
pub enum Focus {
    /// The first entry.
    Top,
    /// The same index as before, or the last entry if the list got shorter.
    Keep,
    /// The entry with this name, or the first entry if there is none.
    Name(String),
}

/// A path to delete, and whether it is a directory (removed with its
/// contents) or not.
#[derive(Clone, Debug)]
pub struct Target {
    pub path: String,
    pub is_dir: bool,
}

/// Outside work that a key press asks for. The caller performs the effects
/// in order and reports each directory it read with `App::dir_read`; a
/// directory that cannot be read leaves the app where it was.
#[derive(Clone, Debug)]
pub enum Effect {
    /// Read the directory `path` and hand its entries to `App::dir_read`.
    ReadDir { path: String, focus: Focus },
    /// Remove each target, going on past failures.
    Delete { targets: Vec<Target> },
    /// Paste `paths` into `dir` (see `files::plan_paste`), removing each
    /// source after a successful copy when `mode` is Cutting.
    Paste { dir: String, paths: Vec<String>, mode: YankMode },
    /// Rename or move `from` to `to`.
    Rename { from: String, to: String },
    /// Create each directory, with its missing ancestors.
    MakeDirs { paths: Vec<String> },
}

pub enum FocusView {
    Top,
    Keep,
    Name(Seq<char>),
}

/// An effect as values.
pub enum EffectView {
    ReadDir { path: Seq<char>, focus: FocusView },
    Delete { targets: Seq<(Seq<char>, bool)> },
    Paste { dir: Seq<char>, paths: Seq<Seq<char>>, mode: YankMode },
    Rename { from: Seq<char>, to: Seq<char> },
    MakeDirs { paths: Seq<Seq<char>> },
}

impl Focus {
    pub open spec fn view(&self) -> FocusView {
        match self {
            Focus::Top => FocusView::Top,
            Focus::Keep => FocusView::Keep,
            Focus::Name(n) => FocusView::Name(n@),
        }
    }
}

pub open spec fn target_view(t: Target) -> (Seq<char>, bool) {
    (t.path@, t.is_dir)
}

pub open spec fn target_views(ts: Seq<Target>) -> Seq<(Seq<char>, bool)> {
    ts.map_values(|t: Target| target_view(t))
}

impl Effect {
    pub open spec fn view(&self) -> EffectView {
        match self {
            Effect::ReadDir { path, focus } => EffectView::ReadDir { path: path@, focus: focus@ },
            Effect::Delete { targets } => EffectView::Delete {
                targets: target_views(targets@),
            },
            Effect::Paste { dir, paths, mode } => EffectView::Paste {
                dir: dir@,
                paths: string_views(paths@),
                mode: *mode,
            },
            Effect::Rename { from, to } => EffectView::Rename { from: from@, to: to@ },
            Effect::MakeDirs { paths } => EffectView::MakeDirs { paths: string_views(paths@) },
        }
    }
}

pub open spec fn effect_views(fx: Seq<Effect>) -> Seq<EffectView> {
    fx.map_values(|e: Effect| e@)
}

pub open spec fn bookmark_view(b: Bookmark) -> (Seq<char>, Seq<char>) {
    (b.name@, b.path@)
}

pub open spec fn bookmark_views(bs: Seq<Bookmark>) -> Seq<(Seq<char>, Seq<char>)> {
    bs.map_values(|b: Bookmark| bookmark_view(b))
}

/// `n + 1`, or `n` where that does not fit in a `usize`.
pub open spec fn succ_capped(n: nat) -> nat {
    if n < usize::MAX {
        n + 1
    } else {
        n
    }
}

/// The width of the bookmark column: one more than the longest name, and
/// at least 16.
pub open spec fn bookmark_width_of(bs: Seq<(Seq<char>, Seq<char>)>) -> nat
    decreases bs.len(),
{
    if bs.len() == 0 {
        16
    } else {
        let w = bookmark_width_of(bs.drop_last());
        if bs.last().0.len() >= w {
            succ_capped(bs.last().0.len())
        } else {
            w
        }
    }
}

/// The name a bookmark of the directory `dir` gets.
pub open spec fn bookmark_name(dir: Seq<char>) -> Seq<char> {
    if base_name_of(dir).len() == 0 {
        "No file name"@
    } else {
        base_name_of(dir)
    }
}

/// The first index of an entry named `n`.
pub open spec fn first_named(s: Seq<Entry>, n: Seq<char>) -> Option<nat>
    decreases s.len(),
{
    if s.len() == 0 {
        None
    } else if s[0].name@ == n {
        Some(0)
    } else {
        match first_named(s.drop_first(), n) {
            Some(i) => Some(i + 1),
            None => None,
        }
    }
}

/// Where the cursor goes after reading a directory listed as `s`.
pub open spec fn focus_index(ui: Ui, focus: FocusView, s: Seq<Entry>) -> int {
    match focus {
        FocusView::Top => 0,
        FocusView::Keep => ui.index(),
        FocusView::Name(n) => match first_named(s, n) {
            Some(i) => i as int,
            None => 0,
        },
    }
}

pub open spec fn entry_paths(s: Seq<Entry>) -> Seq<Seq<char>> {
    s.map_values(|e: Entry| e.path@)
}

pub open spec fn entry_targets(s: Seq<Entry>) -> Seq<(Seq<char>, bool)> {
    s.map_values(|e: Entry| (e.path@, e.is_dir))
}


/// Each of `names` inside the directory `dir`.
pub open spec fn joined_all(dir: Seq<char>, names: Seq<Seq<char>>) -> Seq<Seq<char>> {
    names.map_values(|a: Seq<char>| joined(dir, a))
}

/// The command-line state once Command mode opens: the text is cleared.
pub open spec fn opened_line(s: LineState) -> LineState {
    LineState { text: Seq::empty(), ..s }
}

/// What an action does in Normal mode (and for a command), on the state
/// `a0`, with the command arguments `args`: the next state `a1` and the
/// effects `fx`. The focused panel decides what an action means.
pub open spec fn normal_done(a0: App, a1: App, action: Action, args: Seq<Seq<char>>, fx: Seq<EffectView>) -> bool {
    let len = a0.dir_contents.len() as int;
    let blen = a0.bookmarks.len() as int;
    let bi = a0.ui.bookmark_index();
    let cur = a0.current_dir@;
    let sel = a0.selected();
    let none = Seq::<EffectView>::empty();
    if action == Action::CreateDir {
        &&& a1 == a0
        &&& fx == seq![
            EffectView::MakeDirs { paths: joined_all(cur, args) },
            a0.refresh(),
        ]
    } else if action == Action::Quit {
        a1 == (App { should_quit: true, ..a0 }) && fx == none
    } else if action == Action::OpenCommandMode {
        &&& a1 == (App {
            active_mode: ActiveMode::Command,
            command_line: a1.command_line,
            resolver: a1.resolver,
            ..a0
        })
        &&& a1.command_line.model() == opened_line(a0.command_line.model())
        &&& a1.resolver.pending@ == Seq::<KeyPress>::empty()
        &&& fx == none
    } else {
        match a0.active_panel {
            ActivePanel::Main => match action {
                Action::MoveDown => a1 == (App { ui: a0.ui.scrolled(1, len, ActivePanel::Main), ..a0 })
                    && fx == none,
                Action::MoveUp => a1 == (App { ui: a0.ui.scrolled(-1, len, ActivePanel::Main), ..a0 })
                    && fx == none,
                Action::MoveUpDir => a1 == a0 && fx == match parent_of(cur) {
                    Some(p) => seq![
                        EffectView::ReadDir { path: p, focus: FocusView::Name(base_name_of(cur)) },
                    ],
                    None => none,
                },
                Action::EnterDir => a1 == a0 && fx == (if sel.len() > 0 && sel[0].is_dir {
                    seq![EffectView::ReadDir { path: sel[0].path@, focus: FocusView::Top }]
                } else {
                    none
                }),
                Action::MoveToTop => a1 == (App {
                    ui: a0.ui.scrolled_abs(0, len, ActivePanel::Main),
                    ..a0
                }) && fx == none,
                Action::MoveToBottom => a1 == (App {
                    ui: a0.ui.scrolled_abs(if len > 0 { len - 1 } else { 0 }, len, ActivePanel::Main),
                    ..a0
                }) && fx == none,
                Action::CopyFiles => {
                    &&& a1 == (App { yank: a1.yank, ..a0 })
                    &&& string_views(a1.yank.paths@) == entry_paths(sel)
                    &&& a1.yank.mode == Some(YankMode::Copying)
                    &&& fx == none
                },
                Action::CutFiles => {
                    &&& a1 == (App { yank: a1.yank, ..a0 })
                    &&& string_views(a1.yank.paths@) == entry_paths(sel)
                    &&& a1.yank.mode == Some(YankMode::Cutting)
                    &&& fx == none
                },
                Action::PasteFiles => a1 == a0 && fx == (if a0.yank.mode is Some && a0.yank.paths.len() > 0 {
                    seq![
                        EffectView::Paste {
                            dir: cur,
                            paths: string_views(a0.yank.paths@),
                            mode: a0.yank.mode->0,
                        },
                        a0.refresh(),
                    ]
                } else {
                    none
                }),
                Action::DeleteFile => a1 == a0 && fx == (if sel.len() > 0 {
                    seq![EffectView::Delete { targets: entry_targets(sel) }, a0.refresh()]
                } else {
                    none
                }),
                Action::CreateBookmark => {
                    &&& bookmark_views(a1.bookmarks@) == bookmark_views(a0.bookmarks@).push(
                        (bookmark_name(cur), cur),
                    )
                    &&& a1.ui.bookmark_width == bookmark_width_of(bookmark_views(a1.bookmarks@))
                    &&& a1 == (App {
                        bookmarks: a1.bookmarks,
                        ui: Ui { bookmark_width: a1.ui.bookmark_width, ..a0.ui },
                        ..a0
                    })
                    &&& fx == none
                },
                Action::ToggleBookmark => a1 == (App { active_panel: ActivePanel::Bookmarks, ..a0 })
                    && fx == none,
                Action::MoveToLeftPanel => a1 == (App { active_panel: ActivePanel::Bookmarks, ..a0 })
                    && fx == none,
                Action::MoveEntry => a1 == a0 && fx == (if args.len() > 0 && sel.len() == 1 && parent_of(
                    sel[0].path@,
                ) is Some {
                    seq![
                        EffectView::Rename {
                            from: sel[0].path@,
                            to: joined(parent_of(sel[0].path@)->0, args[0]),
                        },
                        a0.refresh(),
                    ]
                } else {
                    none
                }),
                Action::ToggleHiddenFiles => a1 == (App {
                    show_hidden_files: !a0.show_hidden_files,
                    ..a0
                }) && fx == seq![a0.refresh()],
                Action::ToggleVisualMode => a1 == (App {
                    active_mode: ActiveMode::Visual,
                    anchor: a0.ui.index() as usize,
                    ..a0
                }) && fx == none,
                _ => a1 == a0 && fx == none,
            },
            ActivePanel::Bookmarks => match action {
                Action::MoveDown => a1 == (App {
                    ui: a0.ui.scrolled(1, blen, ActivePanel::Bookmarks),
                    ..a0
                }) && fx == none,
                Action::MoveUp => a1 == (App {
                    ui: a0.ui.scrolled(-1, blen, ActivePanel::Bookmarks),
                    ..a0
                }) && fx == none,
                Action::EnterDir => a1 == (App { active_panel: ActivePanel::Main, ..a0 }) && fx == (if bi
                    < blen {
                    seq![EffectView::ReadDir { path: a0.bookmarks@[bi].path@, focus: FocusView::Top }]
                } else {
                    none
                }),
                Action::DeleteBookmark => {
                    &&& bookmark_views(a1.bookmarks@) == (if bi < blen {
                        bookmark_views(a0.bookmarks@).remove(bi)
                    } else {
                        bookmark_views(a0.bookmarks@)
                    })
                    &&& a1.ui.bookmark_width == bookmark_width_of(bookmark_views(a1.bookmarks@))
                    &&& a1 == (App {
                        bookmarks: a1.bookmarks,
                        ui: Ui { bookmark_width: a1.ui.bookmark_width, ..a0.ui },
                        ..a0
                    })
                    &&& fx == none
                },
                Action::ToggleBookmark => a1 == (App { active_panel: ActivePanel::Main, ..a0 })
                    && fx == none,
                Action::MoveToRightPanel => a1 == (App { active_panel: ActivePanel::Main, ..a0 })
                    && fx == none,
                _ => a1 == a0 && fx == none,
            },
        }
    }
}

proof fn lemma_effect_views_short(fx: Seq<Effect>)
    ensures
        fx.len() == 0 ==> effect_views(fx) == Seq::<EffectView>::empty(),
        fx.len() == 1 ==> effect_views(fx) == seq![fx[0]@],
        fx.len() == 2 ==> effect_views(fx) == seq![fx[0]@, fx[1]@],
{
    if fx.len() == 0 {
        assert(effect_views(fx) =~= Seq::<EffectView>::empty());
    } else if fx.len() == 1 {
        assert(effect_views(fx) =~= seq![fx[0]@]);
    } else if fx.len() == 2 {
        assert(effect_views(fx) =~= seq![fx[0]@, fx[1]@]);
    }
}


/// What an action does in Visual mode, on the state `a0`: the next state
/// `a1` and the effects `fx`. The selection is the range between the anchor
/// and the cursor, and the panel focus plays no part.
pub open spec fn visual_done(a0: App, a1: App, action: Action, fx: Seq<EffectView>) -> bool {
    let len = a0.dir_contents.len() as int;
    let cur = a0.current_dir@;
    let sel = a0.selected();
    let none = Seq::<EffectView>::empty();
    match action {
        Action::MoveDown => a1 == (App { ui: a0.ui.scrolled(1, len, ActivePanel::Main), ..a0 }) && fx
            == none,
        Action::MoveUp => a1 == (App { ui: a0.ui.scrolled(-1, len, ActivePanel::Main), ..a0 }) && fx
            == none,
        Action::Quit => a1 == (App { should_quit: true, ..a0 }) && fx == none,
        Action::MoveToTop => a1 == (App { ui: a0.ui.scrolled_abs(0, len, ActivePanel::Main), ..a0 })
            && fx == none,
        Action::MoveToBottom => a1 == (App {
            ui: a0.ui.scrolled_abs(if len > 0 { len - 1 } else { 0 }, len, ActivePanel::Main),
            ..a0
        }) && fx == none,
        Action::CopyFiles => {
            &&& a1 == (App { yank: a1.yank, ..a0 })
            &&& string_views(a1.yank.paths@) == entry_paths(sel)
            &&& a1.yank.mode == Some(YankMode::Copying)
            &&& fx == none
        },
        Action::CutFiles => {
            &&& a1 == (App { yank: a1.yank, ..a0 })
            &&& string_views(a1.yank.paths@) == entry_paths(sel)
            &&& a1.yank.mode == Some(YankMode::Cutting)
            &&& fx == none
        },
        Action::PasteFiles => a1 == a0 && fx == (if a0.yank.mode is Some && a0.yank.paths.len() > 0 {
            seq![
                EffectView::Paste {
                    dir: cur,
                    paths: string_views(a0.yank.paths@),
                    mode: a0.yank.mode->0,
                },
                a0.refresh(),
            ]
        } else {
            none
        }),
        Action::OpenCommandMode => {
            &&& a1 == (App {
                active_mode: ActiveMode::Command,
                command_line: a1.command_line,
                resolver: a1.resolver,
                ..a0
            })
            &&& a1.command_line.model() == opened_line(a0.command_line.model())
            &&& a1.resolver.pending@ == Seq::<KeyPress>::empty()
            &&& fx == none
        },
        Action::DeleteFile => a1 == a0 && fx == (if sel.len() > 0 {
            seq![EffectView::Delete { targets: entry_targets(sel) }, a0.refresh()]
        } else {
            none
        }),
        Action::ToggleVisualMode => a1 == (App { active_mode: ActiveMode::Normal, ..a0 }) && fx == none,
        _ => a1 == a0 && fx == none,
    }
}

/// What a character key does: in Command mode it is typed; in Normal and
/// Visual mode it goes through the chord resolver with the mode's table,
/// and a chord that fires runs its action with the pending keys cleared.
pub open spec fn key_done(a0: App, a1: App, key: KeyPress, fx: Seq<EffectView>) -> bool {
    let none = Seq::<EffectView>::empty();
    match a0.active_mode {
        ActiveMode::Command => fx == none && match key.code {
            KeyCode::Char(c) => a1 == (App { command_line: a1.command_line, ..a0 })
                && a1.command_line.model() == typed(a0.command_line.model(), c),
            _ => a1 == a0,
        },
        _ => {
            let table = if a0.active_mode == ActiveMode::Normal {
                a0.bindings@
            } else {
                a0.visual_bindings@
            };
            let (res, pending) = resolve(table, a0.resolver.pending@, key);
            &&& a1.resolver.pending@ == pending
            &&& match res {
                Resolution::Fired(action) => if a0.active_mode == ActiveMode::Normal {
                    normal_done(App { resolver: a1.resolver, ..a0 }, a1, action, Seq::empty(), fx)
                } else {
                    visual_done(App { resolver: a1.resolver, ..a0 }, a1, action, fx)
                },
                _ => a1 == (App { resolver: a1.resolver, ..a0 }) && fx == none,
            }
        },
    }
}

/// Esc: in Command mode it cancels an active completion, or else leaves for
/// Normal mode with the text cleared; in Visual mode it goes back to Normal.
pub open spec fn esc_done(a0: App, a1: App) -> bool {
    let m = a0.command_line.model();
    match a0.active_mode {
        ActiveMode::Command => if m.completion is Some {
            a1 == (App { command_line: a1.command_line, ..a0 }) && a1.command_line.model() == (LineState {
                completion: None,
                matches: Seq::empty(),
                text: m.tmp,
                ..m
            })
        } else {
            a1 == (App { command_line: a1.command_line, active_mode: ActiveMode::Normal, ..a0 })
                && a1.command_line.model() == (LineState { text: Seq::empty(), history_index: None, ..m })
        },
        ActiveMode::Visual => a1 == (App { active_mode: ActiveMode::Normal, ..a0 }),
        ActiveMode::Normal => a1 == a0,
    }
}

/// Enter in Command mode: with an active completion, the highlighted match
/// is accepted and nothing runs. Otherwise the text goes to the history,
/// the command its first word names runs (as in Normal mode) with the other
/// words as arguments, and the mode returns to Normal. Outside Command mode
/// Enter does nothing.
pub open spec fn enter_done(a0: App, a1: App, fx: Seq<EffectView>) -> bool {
    let m = a0.command_line.model();
    let none = Seq::<EffectView>::empty();
    let words = words_of(m.text);
    if a0.active_mode != ActiveMode::Command {
        a1 == a0 && fx == none
    } else if m.completion is Some {
        &&& a1 == (App { command_line: a1.command_line, ..a0 })
        &&& a1.command_line.model() == (LineState { completion: None, matches: Seq::empty(), ..m })
        &&& fx == none
    } else {
        &&& a1.command_line.model() == (LineState {
            text: Seq::empty(),
            history: m.history.push(m.text),
            history_index: None,
            ..m
        })
        &&& a1.active_mode == ActiveMode::Normal
        &&& match (if words.len() > 0 { find_command(command_list(), words[0]) } else { None }) {
            Some(action) => normal_done(
                App { command_line: a1.command_line, ..a0 },
                App { active_mode: a0.active_mode, ..a1 },
                action,
                words.drop_first(),
                fx,
            ),
            None => a1 == (App { command_line: a1.command_line, active_mode: ActiveMode::Normal, ..a0 })
                && fx == none,
        }
    }
}

/// A command-line key in Command mode changes the command line as `step`
/// says; outside Command mode it does nothing.
pub open spec fn line_done(a0: App, a1: App, step: LineState) -> bool {
    if a0.active_mode == ActiveMode::Command {
        a1 == (App { command_line: a1.command_line, ..a0 }) && a1.command_line.model() == step
    } else {
        a1 == a0
    }
}

/// What any key press does, routed by its key.
pub open spec fn handled(a0: App, a1: App, key: KeyPress, fx: Seq<EffectView>) -> bool {
    let m = a0.command_line.model();
    let table = a0.commands@;
    let none = Seq::<EffectView>::empty();
    match key.code {
        KeyCode::Char(_) => key_done(a0, a1, key, fx),
        KeyCode::Esc => esc_done(a0, a1) && fx == none,
        KeyCode::Enter => enter_done(a0, a1, fx),
        KeyCode::Backspace => line_done(a0, a1, backspaced(m)) && fx == none,
        KeyCode::Up => line_done(a0, a1, history_up(m)) && fx == none,
        KeyCode::Down => line_done(a0, a1, history_down(m)) && fx == none,
        KeyCode::Tab => if key.shift {
            line_done(a0, a1, back_tabbed(m, table)) && fx == none
        } else {
            line_done(a0, a1, tabbed(m, table)) && fx == none
        },
        KeyCode::BackTab => line_done(a0, a1, back_tabbed(m, table)) && fx == none,
        KeyCode::Other => a1 == a0 && fx == none,
    }
}

/// A copy of each string of `v`.
pub fn clone_strings(v: &Vec<String>) -> (r: Vec<String>)
    ensures
        r@ == v@,
{
    let mut out: Vec<String> = Vec::new();
    let mut i: usize = 0;
    while i < v.len()
        invariant
            i <= v.len(),
            out@ == v@.subrange(0, i as int),
        decreases v.len() - i,
    {
        out.push(v[i].clone());
        assert(out@ =~= v@.subrange(0, i + 1));
        i = i + 1;
    }
    assert(v@.subrange(0, v.len() as int) =~= v@);
    out
}

/// The state of the file manager's core: the current directory and its
/// listing, the bookmarks, the list positions, the binding tables and the
/// pending chord, the mode and focused panel, the Visual-mode anchor, the
/// yank register and the command line.
pub struct App {
    pub title: String,
    pub should_quit: bool,
    pub current_dir: String,
    pub dir_contents: Vec<Entry>,
    pub bookmarks: Vec<Bookmark>,
    pub ui: Ui,
    pub resolver: ChordResolver,
    pub bindings: BindingTable,
    pub visual_bindings: BindingTable,
    pub commands: CommandMode,
    pub active_panel: ActivePanel,
    pub active_mode: ActiveMode,
    pub anchor: usize,
    pub yank: YankRegister,
    pub command_line: CommandLine,
    pub show_hidden_files: bool,
}

impl App {
    pub open spec fn wf(&self) -> bool {
        &&& self.ui.wf()
        &&& self.bindings.wf()
        &&& self.visual_bindings.wf()
        &&& self.command_line.wf()
        &&& self.commands@ == command_list()
        &&& self.active_mode == ActiveMode::Command ==> self.resolver.pending@.len() == 0
    }

    /// The inclusive index range of the selected entries: the range between
    /// the anchor and the cursor in Visual mode, the cursor alone otherwise,
    /// clipped to the listing; none in an empty listing.
    pub open spec fn selection(&self) -> Option<(int, int)> {
        let len = self.dir_contents.len() as int;
        let i = self.ui.index();
        if len == 0 {
            None
        } else if self.active_mode == ActiveMode::Visual {
            let lo = if self.anchor < i { self.anchor as int } else { i };
            let hi = if self.anchor < i { i } else { self.anchor as int };
            let hi2 = if hi > len - 1 { len - 1 } else { hi };
            let lo2 = if lo > hi2 { hi2 } else { lo };
            Some((lo2, hi2))
        } else {
            let j = if i > len - 1 { len - 1 } else { i };
            Some((j, j))
        }
    }

    /// The selected entries, in listing order.
    pub open spec fn selected(&self) -> Seq<Entry> {
        match self.selection() {
            Some((lo, hi)) => self.dir_contents@.subrange(lo, hi + 1),
            None => Seq::empty(),
        }
    }

    pub open spec fn refresh(&self) -> EffectView {
        EffectView::ReadDir { path: self.current_dir@, focus: FocusView::Keep }
    }

    /// A new app in `current_dir`, in Normal mode with the file list focused.
    pub fn new(title: String, current_dir: String, loaded: LoadedBindings) -> (r: App)
        requires
            loaded.normal.wf(),
            loaded.visual.wf(),
        ensures
            r.wf(),
            r.title == title,
            r.current_dir == current_dir,
            r.bindings == loaded.normal,
            r.visual_bindings == loaded.visual,
            r.active_mode == ActiveMode::Normal,
            r.active_panel == ActivePanel::Main,
            !r.should_quit,
            !r.show_hidden_files,
            r.dir_contents@.len() == 0,
            r.bookmarks@.len() == 0,
            r.resolver.pending@.len() == 0,
            r.yank.mode is None,
            r.yank.paths@.len() == 0,
            r.anchor == 0,
            r.ui == (Ui {
                cursor_y: 0,
                scroll_y: 0,
                bookmark_y: 0,
                bookmark_scroll_y: 0,
                height: 0,
                bookmark_width: 16,
            }),
            r.command_line.model() == (LineState {
                text: Seq::empty(),
                tmp: Seq::empty(),
                history: Seq::empty(),
                history_index: None,
                matches: Seq::empty(),
                completion: None,
            }),
    {
        App {
            title,
            should_quit: false,
            current_dir,
            dir_contents: Vec::new(),
            bookmarks: Vec::new(),
            ui: Ui::new(),
            resolver: ChordResolver::new(),
            bindings: loaded.normal,
            visual_bindings: loaded.visual,
            commands: CommandMode::new(),
            active_panel: ActivePanel::Main,
            active_mode: ActiveMode::Normal,
            anchor: 0,
            yank: YankRegister::new(),
            command_line: CommandLine::new(),
            show_hidden_files: false,
        }
    }

    /// Starts the app with the stored bookmarks; asks for the current
    /// directory to be read.
    pub fn init(&mut self, bookmarks: Vec<Bookmark>) -> (fx: Vec<Effect>)
        requires
            old(self).wf(),
        ensures
            final(self).wf(),
            final(self).bookmarks == bookmarks,
            final(self).ui.bookmark_width == bookmark_width_of(bookmark_views(bookmarks@)),
            *final(self) == (App {
                bookmarks: final(self).bookmarks,
                ui: Ui { bookmark_width: final(self).ui.bookmark_width, ..old(self).ui },
                ..*old(self)
            }),
            effect_views(fx@) == seq![
                EffectView::ReadDir { path: old(self).current_dir@, focus: FocusView::Top },
            ],
    {
        self.bookmarks = bookmarks;
        self.update_bookmark_width();
        let mut fx: Vec<Effect> = Vec::new();
        fx.push(Effect::ReadDir { path: self.current_dir.clone(), focus: Focus::Top });
        assert(effect_views(fx@) =~= seq![
            EffectView::ReadDir { path: old(self).current_dir@, focus: FocusView::Top },
        ]);
        fx
    }

    /// Sets the bookmark column's width from the bookmark names.
    pub fn update_bookmark_width(&mut self)
        requires
            old(self).wf(),
        ensures
            final(self).wf(),
            final(self).ui.bookmark_width == bookmark_width_of(bookmark_views(old(self).bookmarks@)),
            *final(self) == (App {
                ui: Ui { bookmark_width: final(self).ui.bookmark_width, ..old(self).ui },
                ..*old(self)
            }),
    {
        let mut w: usize = 16;
        let mut i: usize = 0;
        while i < self.bookmarks.len()
            invariant
                i <= self.bookmarks.len(),
                w == bookmark_width_of(bookmark_views(self.bookmarks@.subrange(0, i as int))),
                w <= usize::MAX,
            decreases self.bookmarks.len() - i,
        {
            let ghost pre = bookmark_views(self.bookmarks@.subrange(0, i as int));
            assert(bookmark_views(self.bookmarks@.subrange(0, i + 1)).drop_last() =~= pre);
            let n = self.bookmarks[i].name.unicode_len();
            if n >= w {
                w = if n < usize::MAX {
                    n + 1
                } else {
                    n
                };
            }
            i = i + 1;
        }
        assert(self.bookmarks@.subrange(0, self.bookmarks.len() as int) =~= self.bookmarks@);
        self.ui.bookmark_width = w;
    }

    /// The index of the first listed entry named `name`.
    pub fn find_name(&self, name: &str) -> (r: Option<usize>)
        ensures
            match r {
                Some(j) => first_named(self.dir_contents@, name@) == Some(j as nat),
                None => first_named(self.dir_contents@, name@) is None,
            },
    {
        let mut i: usize = 0;
        assert(self.dir_contents@.subrange(0, self.dir_contents.len() as int) =~= self.dir_contents@);
        while i < self.dir_contents.len()
            invariant
                i <= self.dir_contents.len(),
                first_named(self.dir_contents@, name@) == (match first_named(
                    self.dir_contents@.subrange(i as int, self.dir_contents.len() as int),
                    name@,
                ) {
                    Some(j) => Some((j + i) as nat),
                    None => None,
                }),
            decreases self.dir_contents.len() - i,
        {
            let ghost rest = self.dir_contents@.subrange(i as int, self.dir_contents.len() as int);
            assert(rest.drop_first() =~= self.dir_contents@.subrange(i + 1, self.dir_contents.len() as int));
            if str_eq(self.dir_contents[i].name.as_str(), name) {
                return Some(i);
            }
            i = i + 1;
        }
        None
    }

    /// The inclusive index range of the selected entries.
    pub fn selection_range(&self) -> (r: Option<(usize, usize)>)
        requires
            self.wf(),
        ensures
            match self.selection() {
                Some((lo, hi)) => r == Some((lo as usize, hi as usize)),
                None => r is None,
            },
    {
        let len = self.dir_contents.len();
        let i = self.ui.selected_index();
        if len == 0 {
            None
        } else if self.active_mode == ActiveMode::Visual {
            let lo = if self.anchor < i { self.anchor } else { i };
            let hi = if self.anchor < i { i } else { self.anchor };
            let hi2 = if hi > len - 1 { len - 1 } else { hi };
            let lo2 = if lo > hi2 { hi2 } else { lo };
            Some((lo2, hi2))
        } else {
            let j = if i > len - 1 { len - 1 } else { i };
            Some((j, j))
        }
    }

    /// The paths of the selected entries, in listing order.
    pub fn selected_paths(&self) -> (r: Vec<String>)
        requires
            self.wf(),
        ensures
            string_views(r@) == entry_paths(self.selected()),
    {
        let mut out: Vec<String> = Vec::new();
        match self.selection_range() {
            Some((lo, hi)) => {
                let mut i = lo;
                while i <= hi
                    invariant
                        lo <= i <= hi + 1,
                        hi < self.dir_contents.len(),
                        string_views(out@) == entry_paths(self.dir_contents@.subrange(lo as int, i as int)),
                    decreases hi + 1 - i,
                {
                    assert(entry_paths(self.dir_contents@.subrange(lo as int, i + 1)) =~= entry_paths(
                        self.dir_contents@.subrange(lo as int, i as int),
                    ).push(self.dir_contents@[i as int].path@));
                    out.push(self.dir_contents[i].path.clone());
                    assert(string_views(out@) =~= entry_paths(self.dir_contents@.subrange(lo as int, i + 1)));
                    i = i + 1;
                }
            },
            None => {
                assert(string_views(out@) =~= entry_paths(self.selected()));
            },
        }
        out
    }

    /// The selected entries as deletion targets, in listing order.
    pub fn selected_targets(&self) -> (r: Vec<Target>)
        requires
            self.wf(),
        ensures
            target_views(r@) == entry_targets(self.selected()),
    {
        let mut out: Vec<Target> = Vec::new();
        match self.selection_range() {
            Some((lo, hi)) => {
                let mut i = lo;
                while i <= hi
                    invariant
                        lo <= i <= hi + 1,
                        hi < self.dir_contents.len(),
                        target_views(out@) == entry_targets(
                            self.dir_contents@.subrange(lo as int, i as int),
                        ),
                    decreases hi + 1 - i,
                {
                    let e = &self.dir_contents[i];
                    assert(entry_targets(self.dir_contents@.subrange(lo as int, i + 1)) =~= entry_targets(
                        self.dir_contents@.subrange(lo as int, i as int),
                    ).push((e.path@, e.is_dir)));
                    out.push(Target { path: e.path.clone(), is_dir: e.is_dir });
                    assert(target_views(out@) =~= entry_targets(
                        self.dir_contents@.subrange(lo as int, i + 1),
                    ));
                    i = i + 1;
                }
            },
            None => {
                assert(target_views(out@) =~= entry_targets(self.selected()));
            },
        }
        out
    }

    /// Takes in the entries of the directory `path`, read for an effect:
    /// `path` becomes the current directory, its listing is computed, and
    /// the cursor goes where `focus` says.
    pub fn dir_read(&mut self, path: String, entries: Vec<Entry>, focus: Focus)
        requires
            old(self).wf(),
        ensures
            final(self).wf(),
            final(self).dir_contents@ == listing(entries@, old(self).show_hidden_files),
            final(self).ui == old(self).ui.scrolled_abs(
                focus_index(old(self).ui, focus@, final(self).dir_contents@),
                final(self).dir_contents.len() as int,
                ActivePanel::Main,
            ),
            *final(self) == (App {
                current_dir: path,
                dir_contents: final(self).dir_contents,
                ui: final(self).ui,
                ..*old(self)
            }),
    {
        let keep = self.ui.selected_index();
        self.current_dir = path;
        self.dir_contents = sorted_listing(entries, self.show_hidden_files);
        let ghost fv = focus@;
        let target: usize = match focus {
            Focus::Top => 0,
            Focus::Keep => keep,
            Focus::Name(n) => match self.find_name(n.as_str()) {
                Some(i) => i,
                None => 0,
            },
        };
        let len = self.dir_contents.len();
        assert(target as int == focus_index(old(self).ui, fv, self.dir_contents@));
        self.ui.scroll_abs(target, len, &ActivePanel::Main);
    }

    /// The ReadDir effect that refreshes the current directory.
    fn refresh_effect(&self) -> (r: Effect)
        ensures
            r@ == self.refresh(),
    {
        Effect::ReadDir { path: self.current_dir.clone(), focus: Focus::Keep }
    }

    /// Bookmarks the current directory.
    pub fn create_bookmark(&mut self)
        requires
            old(self).wf(),
        ensures
            final(self).wf(),
            bookmark_views(final(self).bookmarks@) == bookmark_views(old(self).bookmarks@).push(
                (bookmark_name(old(self).current_dir@), old(self).current_dir@),
            ),
            final(self).ui.bookmark_width == bookmark_width_of(bookmark_views(final(self).bookmarks@)),
            *final(self) == (App {
                bookmarks: final(self).bookmarks,
                ui: Ui { bookmark_width: final(self).ui.bookmark_width, ..old(self).ui },
                ..*old(self)
            }),
    {
        let base = base_name(self.current_dir.as_str());
        let name = if base.unicode_len() == 0 {
            String::from_str("No file name")
        } else {
            base
        };
        self.bookmarks.push(Bookmark { name, path: self.current_dir.clone() });
        assert(bookmark_views(self.bookmarks@) =~= bookmark_views(old(self).bookmarks@).push(
            (bookmark_name(old(self).current_dir@), old(self).current_dir@),
        ));
        self.update_bookmark_width();
    }

    /// Removes the selected bookmark, if there is one.
    pub fn delete_bookmark(&mut self)
        requires
            old(self).wf(),
        ensures
            final(self).wf(),
            bookmark_views(final(self).bookmarks@) == (if old(self).ui.bookmark_index() < old(
                self,
            ).bookmarks.len() {
                bookmark_views(old(self).bookmarks@).remove(old(self).ui.bookmark_index())
            } else {
                bookmark_views(old(self).bookmarks@)
            }),
            final(self).ui.bookmark_width == bookmark_width_of(bookmark_views(final(self).bookmarks@)),
            *final(self) == (App {
                bookmarks: final(self).bookmarks,
                ui: Ui { bookmark_width: final(self).ui.bookmark_width, ..old(self).ui },
                ..*old(self)
            }),
    {
        let i = self.ui.selected_bookmark_index();
        if i < self.bookmarks.len() {
            self.bookmarks.remove(i);
            assert(bookmark_views(self.bookmarks@) =~= bookmark_views(old(self).bookmarks@).remove(
                i as int,
            ));
        }
        self.update_bookmark_width();
    }

    /// Each of `names` inside the current directory.
    fn dir_paths(&self, names: &Vec<String>) -> (r: Vec<String>)
        ensures
            string_views(r@) == joined_all(self.current_dir@, string_views(names@)),
    {
        let mut paths: Vec<String> = Vec::new();
        let mut i: usize = 0;
        while i < names.len()
            invariant
                i <= names.len(),
                string_views(paths@) == joined_all(self.current_dir@, string_views(names@).subrange(0, i as int)),
            decreases names.len() - i,
        {
            let p = join_path(self.current_dir.as_str(), names[i].as_str());
            assert(string_views(names@).subrange(0, i + 1) =~= string_views(names@).subrange(0, i as int).push(
                names@[i as int]@,
            ));
            let ghost before = string_views(paths@);
            paths.push(p);
            assert(string_views(paths@) =~= before.push(joined(self.current_dir@, names@[i as int]@)));
            assert(joined_all(self.current_dir@, string_views(names@).subrange(0, i + 1)) =~= joined_all(
                self.current_dir@,
                string_views(names@).subrange(0, i as int),
            ).push(joined(self.current_dir@, names@[i as int]@)));
            i = i + 1;
        }
        assert(string_views(names@).subrange(0, names.len() as int) =~= string_views(names@));
        paths
    }

    /// What the file list does with `action`.
    fn main_panel_action(&mut self, action: Action, args: &Vec<String>) -> (fx: Vec<Effect>)
        requires
            old(self).wf(),
            old(self).active_panel == ActivePanel::Main,
            action != Action::CreateDir,
            action != Action::Quit,
            action != Action::OpenCommandMode,
        ensures
            final(self).wf(),
            normal_done(*old(self), *final(self), action, string_views(args@), effect_views(fx@)),
    {
        let mut fx: Vec<Effect> = Vec::new();
        let len = self.dir_contents.len();
        match action {
            Action::MoveDown => self.ui.scroll(1, len, &ActivePanel::Main),
            Action::MoveUp => self.ui.scroll(-1, len, &ActivePanel::Main),
            Action::MoveUpDir => {
                match parent_path(self.current_dir.as_str()) {
                    Some(p) => {
                        let name = base_name(self.current_dir.as_str());
                        fx.push(Effect::ReadDir { path: p, focus: Focus::Name(name) });
                    },
                    None => {},
                }
            },
            Action::EnterDir => {
                match self.selection_range() {
                    Some((lo, _hi)) => {
                        if self.dir_contents[lo].is_dir {
                            fx.push(
                                Effect::ReadDir {
                                    path: self.dir_contents[lo].path.clone(),
                                    focus: Focus::Top,
                                },
                            );
                        }
                    },
                    None => {},
                }
            },
            Action::MoveToTop => self.ui.scroll_abs(0, len, &ActivePanel::Main),
            Action::MoveToBottom => {
                let last = if len > 0 {
                    len - 1
                } else {
                    0
                };
                self.ui.scroll_abs(last, len, &ActivePanel::Main);
            },
            Action::CopyFiles => {
                let paths = self.selected_paths();
                self.yank.copy_files(paths);
            },
            Action::CutFiles => {
                let paths = self.selected_paths();
                self.yank.cut_files(paths);
            },
            Action::PasteFiles => {
                match self.yank.mode {
                    Some(mode) => {
                        if self.yank.paths.len() > 0 {
                            let paths = clone_strings(&self.yank.paths);
                            fx.push(Effect::Paste { dir: self.current_dir.clone(), paths, mode });
                            fx.push(self.refresh_effect());
                        }
                    },
                    None => {},
                }
            },
            Action::DeleteFile => {
                let targets = self.selected_targets();
                assert(target_views(targets@).len() == targets@.len());
                assert(entry_targets(self.selected()).len() == self.selected().len());
                if targets.len() > 0 {
                    fx.push(Effect::Delete { targets });
                    fx.push(self.refresh_effect());
                }
            },
            Action::CreateBookmark => self.create_bookmark(),
            Action::ToggleBookmark => self.active_panel = ActivePanel::Bookmarks,
            Action::MoveToLeftPanel => self.active_panel = ActivePanel::Bookmarks,
            Action::MoveEntry => {
                match self.selection_range() {
                    Some((lo, hi)) => {
                        if args.len() > 0 && lo == hi {
                            let from = self.dir_contents[lo].path.clone();
                            match parent_path(from.as_str()) {
                                Some(parent) => {
                                    let to = join_path(parent.as_str(), args[0].as_str());
                                    fx.push(Effect::Rename { from, to });
                                    fx.push(self.refresh_effect());
                                },
                                None => {},
                            }
                        }
                    },
                    None => {},
                }
            },
            Action::ToggleHiddenFiles => {
                self.show_hidden_files = !self.show_hidden_files;
                fx.push(self.refresh_effect());
            },
            Action::ToggleVisualMode => {
                self.anchor = self.ui.selected_index();
                self.active_mode = ActiveMode::Visual;
            },
            _ => {},
        }
        proof {
            lemma_effect_views_short(fx@);
        }
        fx
    }

    /// What the Bookmarks panel does with `action`.
    fn bookmarks_panel_action(&mut self, action: Action, args: &Vec<String>) -> (fx: Vec<Effect>)
        requires
            old(self).wf(),
            old(self).active_panel == ActivePanel::Bookmarks,
            action != Action::CreateDir,
            action != Action::Quit,
            action != Action::OpenCommandMode,
        ensures
            final(self).wf(),
            normal_done(*old(self), *final(self), action, string_views(args@), effect_views(fx@)),
    {
        let mut fx: Vec<Effect> = Vec::new();
        match action {
            Action::MoveDown => self.ui.scroll(1, self.bookmarks.len(), &ActivePanel::Bookmarks),
            Action::MoveUp => self.ui.scroll(-1, self.bookmarks.len(), &ActivePanel::Bookmarks),
            Action::EnterDir => {
                let i = self.ui.selected_bookmark_index();
                if i < self.bookmarks.len() {
                    fx.push(
                        Effect::ReadDir { path: self.bookmarks[i].path.clone(), focus: Focus::Top },
                    );
                }
                self.active_panel = ActivePanel::Main;
            },
            Action::DeleteBookmark => self.delete_bookmark(),
            Action::ToggleBookmark => self.active_panel = ActivePanel::Main,
            Action::MoveToRightPanel => self.active_panel = ActivePanel::Main,
            _ => {},
        }
        proof {
            lemma_effect_views_short(fx@);
        }
        fx
    }

    /// Carries out `action` as Normal mode (and the command line) does, with
    /// the command arguments `args`.
    pub fn normal_handle_action(&mut self, action: Action, args: Vec<String>) -> (fx: Vec<Effect>)
        requires
            old(self).wf(),
        ensures
            final(self).wf(),
            normal_done(*old(self), *final(self), action, string_views(args@), effect_views(fx@)),
    {
        let mut fx: Vec<Effect> = Vec::new();
        if action == Action::CreateDir {
            let paths = self.dir_paths(&args);
            fx.push(Effect::MakeDirs { paths });
            fx.push(self.refresh_effect());
        } else if action == Action::Quit {
            self.should_quit = true;
        } else if action == Action::OpenCommandMode {
            self.command_line.text = String::new();
            self.resolver = ChordResolver::new();
            self.active_mode = ActiveMode::Command;
        } else {
            fx = match self.active_panel {
                ActivePanel::Main => self.main_panel_action(action, &args),
                ActivePanel::Bookmarks => self.bookmarks_panel_action(action, &args),
            };
        }
        proof {
            lemma_effect_views_short(fx@);
        }
        fx
    }


    /// Carries out `action` as Visual mode does.
    pub fn visual_handle_action(&mut self, action: Action) -> (fx: Vec<Effect>)
        requires
            old(self).wf(),
        ensures
            final(self).wf(),
            visual_done(*old(self), *final(self), action, effect_views(fx@)),
    {
        let mut fx: Vec<Effect> = Vec::new();
        let len = self.dir_contents.len();
        match action {
            Action::MoveDown => self.ui.scroll(1, len, &ActivePanel::Main),
            Action::MoveUp => self.ui.scroll(-1, len, &ActivePanel::Main),
            Action::Quit => self.should_quit = true,
            Action::MoveToTop => self.ui.scroll_abs(0, len, &ActivePanel::Main),
            Action::MoveToBottom => {
                let last = if len > 0 {
                    len - 1
                } else {
                    0
                };
                self.ui.scroll_abs(last, len, &ActivePanel::Main);
            },
            Action::CopyFiles => {
                let paths = self.selected_paths();
                self.yank.copy_files(paths);
            },
            Action::CutFiles => {
                let paths = self.selected_paths();
                self.yank.cut_files(paths);
            },
            Action::PasteFiles => {
                match self.yank.mode {
                    Some(mode) => {
                        if self.yank.paths.len() > 0 {
                            let paths = clone_strings(&self.yank.paths);
                            fx.push(Effect::Paste { dir: self.current_dir.clone(), paths, mode });
                            fx.push(self.refresh_effect());
                        }
                    },
                    None => {},
                }
            },
            Action::OpenCommandMode => {
                self.command_line.text = String::new();
                self.resolver = ChordResolver::new();
                self.active_mode = ActiveMode::Command;
            },
            Action::DeleteFile => {
                let targets = self.selected_targets();
                assert(target_views(targets@).len() == targets@.len());
                assert(entry_targets(self.selected()).len() == self.selected().len());
                if targets.len() > 0 {
                    fx.push(Effect::Delete { targets });
                    fx.push(self.refresh_effect());
                }
            },
            Action::ToggleVisualMode => self.active_mode = ActiveMode::Normal,
            _ => {},
        }
        proof {
            lemma_effect_views_short(fx@);
        }
        fx
    }

    /// A character key: typed in Command mode, resolved as a chord in Normal
    /// and Visual mode.
    pub fn on_key(&mut self, key: KeyPress) -> (fx: Vec<Effect>)
        requires
            old(self).wf(),
        ensures
            final(self).wf(),
            key_done(*old(self), *final(self), key, effect_views(fx@)),
    {
        match self.active_mode {
            ActiveMode::Command => {
                match key.code {
                    KeyCode::Char(c) => self.command_line.type_char(c),
                    _ => {},
                }
                let fx: Vec<Effect> = Vec::new();
                proof {
                    lemma_effect_views_short(fx@);
                }
                fx
            },
            ActiveMode::Normal => {
                match self.resolver.feed(&self.bindings, key) {
                    Resolution::Fired(action) => {
                        let args: Vec<String> = Vec::new();
                        assert(string_views(args@) =~= Seq::<Seq<char>>::empty());
                        self.normal_handle_action(action, args)
                    },
                    _ => {
                        let fx: Vec<Effect> = Vec::new();
                        proof {
                            lemma_effect_views_short(fx@);
                        }
                        fx
                    },
                }
            },
            ActiveMode::Visual => {
                match self.resolver.feed(&self.visual_bindings, key) {
                    Resolution::Fired(action) => self.visual_handle_action(action),
                    _ => {
                        let fx: Vec<Effect> = Vec::new();
                        proof {
                            lemma_effect_views_short(fx@);
                        }
                        fx
                    },
                }
            },
        }
    }

    /// Esc.
    pub fn on_esc(&mut self)
        requires
            old(self).wf(),
        ensures
            final(self).wf(),
            esc_done(*old(self), *final(self)),
    {
        match self.active_mode {
            ActiveMode::Command => {
                if !self.command_line.escape() {
                    self.active_mode = ActiveMode::Normal;
                }
            },
            ActiveMode::Visual => self.active_mode = ActiveMode::Normal,
            ActiveMode::Normal => {},
        }
    }

    /// Enter.
    pub fn on_enter(&mut self) -> (fx: Vec<Effect>)
        requires
            old(self).wf(),
        ensures
            final(self).wf(),
            enter_done(*old(self), *final(self), effect_views(fx@)),
    {
        let mut fx: Vec<Effect> = Vec::new();
        if self.active_mode == ActiveMode::Command {
            match self.command_line.submit(&self.commands) {
                Submission::Completed => {},
                Submission::Run { action, args } => {
                    proof {
                        let words = words_of(old(self).command_line.text@);
                        if words.len() > 0 {
                            crate::command_mode::lemma_command_actions(words[0]);
                        }
                    }
                    match action {
                        Some(a) => {
                            fx = self.normal_handle_action(a, args);
                        },
                        None => {},
                    }
                    self.active_mode = ActiveMode::Normal;
                },
            }
        }
        proof {
            lemma_effect_views_short(fx@);
        }
        fx
    }

    /// Backspace.
    pub fn on_backspace(&mut self)
        requires
            old(self).wf(),
        ensures
            final(self).wf(),
            line_done(*old(self), *final(self), backspaced(old(self).command_line.model())),
    {
        if self.active_mode == ActiveMode::Command {
            self.command_line.backspace();
        }
    }

    /// Up.
    pub fn on_up(&mut self)
        requires
            old(self).wf(),
        ensures
            final(self).wf(),
            line_done(*old(self), *final(self), history_up(old(self).command_line.model())),
    {
        if self.active_mode == ActiveMode::Command {
            self.command_line.up();
        }
    }

    /// Down.
    pub fn on_down(&mut self)
        requires
            old(self).wf(),
        ensures
            final(self).wf(),
            line_done(*old(self), *final(self), history_down(old(self).command_line.model())),
    {
        if self.active_mode == ActiveMode::Command {
            self.command_line.down();
        }
    }

    /// Tab.
    pub fn on_tab(&mut self)
        requires
            old(self).wf(),
        ensures
            final(self).wf(),
            line_done(*old(self), *final(self), tabbed(old(self).command_line.model(), old(self).commands@)),
    {
        if self.active_mode == ActiveMode::Command {
            self.command_line.tab(&self.commands);
        }
    }

    /// Shift-Tab.
    pub fn on_shift_tab(&mut self)
        requires
            old(self).wf(),
        ensures
            final(self).wf(),
            line_done(
                *old(self),
                *final(self),
                back_tabbed(old(self).command_line.model(), old(self).commands@),
            ),
    {
        if self.active_mode == ActiveMode::Command {
            self.command_line.back_tab(&self.commands);
        }
    }

    /// Handles one key press, whatever its key.
    pub fn handle_key(&mut self, key: KeyPress) -> (fx: Vec<Effect>)
        requires
            old(self).wf(),
        ensures
            final(self).wf(),
            handled(*old(self), *final(self), key, effect_views(fx@)),
    {
        let mut fx: Vec<Effect> = Vec::new();
        match key.code {
            KeyCode::Char(_) => {
                fx = self.on_key(key);
            },
            KeyCode::Esc => self.on_esc(),
            KeyCode::Enter => {
                fx = self.on_enter();
            },
            KeyCode::Backspace => self.on_backspace(),
            KeyCode::Up => self.on_up(),
            KeyCode::Down => self.on_down(),
            KeyCode::Tab => {
                if key.shift {
                    self.on_shift_tab();
                } else {
                    self.on_tab();
                }
            },
            KeyCode::BackTab => self.on_shift_tab(),
            KeyCode::Other => {},
        }
        proof {
            lemma_effect_views_short(fx@);
        }
        fx
    }
}

} // verus!
