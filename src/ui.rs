//! Cursor and scroll positions of the two lists.

use vstd::prelude::*;

verus! {

/// Which list has the focus.
#[derive(Clone, Copy, Debug, PartialEq, Eq, Structural)]
pub enum ActivePanel {
    Main,
    Bookmarks,
}

/// The cursor and scroll positions of the two lists, and the height of the
/// window they are shown in. The selected index of a list is its cursor row
/// plus its scroll offset.
#[derive(Clone, Copy, Debug, PartialEq, Eq, Structural)]
pub struct Ui {
    pub cursor_y: usize,
    pub scroll_y: usize,
    pub bookmark_y: usize,
    pub bookmark_scroll_y: usize,
    pub height: usize,
    pub bookmark_width: usize,
}

/// Where a move by `y` from `index` lands in a list of `max` entries: the
/// first or last entry at the ends, 0 in an empty list.
pub open spec fn target_index(index: int, y: int, max: int) -> int {
    if max <= 0 || index + y <= 0 {
        0
    } else if index + y >= max - 1 {
        max - 1
    } else {
        index + y
    }
}

/// The cursor row and scroll offset that show `index` in a window of
/// `height` rows scrolled to `scroll`: the window moves as little as it can.
pub open spec fn window(index: int, scroll: int, height: int) -> (int, int) {
    if index < scroll {
        (0, index)
    } else if index >= scroll + height {
        if height > 0 {
            (height - 1, index - height + 1)
        } else {
            (0, index)
        }
    } else {
        (index - scroll, scroll)
    }
}

impl Ui {
    /// The selected index of the file list.
    pub open spec fn index(&self) -> int {
        self.cursor_y + self.scroll_y
    }

    /// The selected index of the bookmark list.
    pub open spec fn bookmark_index(&self) -> int {
        self.bookmark_y + self.bookmark_scroll_y
    }

    pub open spec fn wf(&self) -> bool {
        &&& self.cursor_y + self.scroll_y <= usize::MAX
        &&& self.bookmark_y + self.bookmark_scroll_y <= usize::MAX
    }

    /// The positions after moving the selection of `panel` to `target`.
    pub open spec fn moved_to(self, target: int, panel: ActivePanel) -> Ui {
        match panel {
            ActivePanel::Main => {
                let w = window(target, self.scroll_y as int, self.height as int);
                Ui { cursor_y: w.0 as usize, scroll_y: w.1 as usize, ..self }
            },
            ActivePanel::Bookmarks => {
                let w = window(target, self.bookmark_scroll_y as int, self.height as int);
                Ui { bookmark_y: w.0 as usize, bookmark_scroll_y: w.1 as usize, ..self }
            },
        }
    }

    /// The positions after moving the selection of `panel` by `y` in a list
    /// of `max` entries.
    pub open spec fn scrolled(self, y: int, max: int, panel: ActivePanel) -> Ui {
        let index = match panel {
            ActivePanel::Main => self.index(),
            ActivePanel::Bookmarks => self.bookmark_index(),
        };
        self.moved_to(target_index(index, y, max), panel)
    }

    /// The positions after selecting entry `y` of `panel` in a list of `max`
    /// entries, counting from a window scrolled to the top.
    pub open spec fn scrolled_abs(self, y: int, max: int, panel: ActivePanel) -> Ui {
        let top = match panel {
            ActivePanel::Main => Ui { cursor_y: 0, scroll_y: 0, ..self },
            ActivePanel::Bookmarks => Ui { bookmark_y: 0, bookmark_scroll_y: 0, ..self },
        };
        top.moved_to(target_index(0, y, max), panel)
    }

    /// Nothing selected, nothing scrolled.
    pub fn new() -> (r: Ui)
        ensures
            r.wf(),
            r == (Ui {
                cursor_y: 0,
                scroll_y: 0,
                bookmark_y: 0,
                bookmark_scroll_y: 0,
                height: 0,
                bookmark_width: 16,
            }),
    {
        Ui { cursor_y: 0, scroll_y: 0, bookmark_y: 0, bookmark_scroll_y: 0, height: 0, bookmark_width: 16 }
    }

    /// The selected index of the file list.
    pub fn selected_index(&self) -> (r: usize)
        requires
            self.wf(),
        ensures
            r == self.index(),
    {
        self.cursor_y + self.scroll_y
    }

    /// The selected index of the bookmark list.
    pub fn selected_bookmark_index(&self) -> (r: usize)
        requires
            self.wf(),
        ensures
            r == self.bookmark_index(),
    {
        self.bookmark_y + self.bookmark_scroll_y
    }

    fn window_exec(index: usize, scroll: usize, height: usize) -> (r: (usize, usize))
        ensures
            r.0 as int == window(index as int, scroll as int, height as int).0,
            r.1 as int == window(index as int, scroll as int, height as int).1,
            r.0 + r.1 == index,
    {
        if index < scroll {
            (0, index)
        } else if index - scroll >= height {
            if height > 0 {
                (height - 1, index - height + 1)
            } else {
                (0, index)
            }
        } else {
            (index - scroll, scroll)
        }
    }

    fn move_to(&mut self, target: usize, panel: &ActivePanel)
        requires
            old(self).wf(),
        ensures
            final(self).wf(),
            *final(self) == old(self).moved_to(target as int, *panel),
    {
        match panel {
            ActivePanel::Main => {
                let (c, s) = Ui::window_exec(target, self.scroll_y, self.height);
                self.cursor_y = c;
                self.scroll_y = s;
            },
            ActivePanel::Bookmarks => {
                let (c, s) = Ui::window_exec(target, self.bookmark_scroll_y, self.height);
                self.bookmark_y = c;
                self.bookmark_scroll_y = s;
            },
        }
    }

    /// Moves the selection of `panel` by `y` entries in a list of `max`,
    /// stopping at the first and the last entry.
    pub fn scroll(&mut self, y: i32, max: usize, panel: &ActivePanel)
        requires
            old(self).wf(),
        ensures
            final(self).wf(),
            *final(self) == old(self).scrolled(y as int, max as int, *panel),
    {
        let index = match panel {
            ActivePanel::Main => self.selected_index(),
            ActivePanel::Bookmarks => self.selected_bookmark_index(),
        };
        let target: usize = if max == 0 {
            0
        } else if y < 0 {
            let d = (-(y as i64)) as u64;
            if (index as u64) <= d {
                0
            } else if index - (d as usize) >= max - 1 {
                max - 1
            } else {
                index - d as usize
            }
        } else {
            let d = y as usize;
            if index >= max - 1 || d >= max - 1 - index {
                max - 1
            } else {
                index + d
            }
        };
        self.move_to(target, panel);
    }

    /// Selects entry `y` of `panel` in a list of `max` (the last one if `y`
    /// is past it), counting from a window scrolled to the top.
    pub fn scroll_abs(&mut self, y: usize, max: usize, panel: &ActivePanel)
        requires
            old(self).wf(),
        ensures
            final(self).wf(),
            *final(self) == old(self).scrolled_abs(y as int, max as int, *panel),
    {
        match panel {
            ActivePanel::Main => {
                self.cursor_y = 0;
                self.scroll_y = 0;
            },
            ActivePanel::Bookmarks => {
                self.bookmark_y = 0;
                self.bookmark_scroll_y = 0;
            },
        }
        let target: usize = if max == 0 {
            0
        } else if y >= max - 1 {
            max - 1
        } else {
            y
        };
        self.move_to(target, panel);
    }
}

} // verus!
