//! The closed set of actions and their names.

use vstd::prelude::*;

use crate::text::str_eq;

verus! {

/// What a key chord or a command asks for. The set is closed; an action
/// carries no data, its arguments travel beside it.
#[derive(Clone, Copy, Debug, PartialEq, Eq, Structural)]
pub enum Action {
    MoveDown,
    MoveUp,
    MoveUpDir,
    EnterDir,
    Quit,
    MoveToTop,
    MoveToBottom,
    CopyFiles,
    CutFiles,
    PasteFiles,
    OpenCommandMode,
    ToggleVisualMode,
    DeleteFile,
    CreateBookmark,
    DeleteBookmark,
    ToggleBookmark,
    MoveToLeftPanel,
    MoveToRightPanel,
    MoveEntry,
    ToggleHiddenFiles,
    CreateDir,
}

/// The action whose name is `s`, if any.
pub open spec fn action_named(s: Seq<char>) -> Option<Action> {
    if s == "MoveDown"@ {
        Some(Action::MoveDown)
    } else if s == "MoveUp"@ {
        Some(Action::MoveUp)
    } else if s == "MoveUpDir"@ {
        Some(Action::MoveUpDir)
    } else if s == "EnterDir"@ {
        Some(Action::EnterDir)
    } else if s == "Quit"@ {
        Some(Action::Quit)
    } else if s == "MoveToTop"@ {
        Some(Action::MoveToTop)
    } else if s == "MoveToBottom"@ {
        Some(Action::MoveToBottom)
    } else if s == "CopyFiles"@ {
        Some(Action::CopyFiles)
    } else if s == "CutFiles"@ {
        Some(Action::CutFiles)
    } else if s == "PasteFiles"@ {
        Some(Action::PasteFiles)
    } else if s == "OpenCommandMode"@ {
        Some(Action::OpenCommandMode)
    } else if s == "ToggleVisualMode"@ {
        Some(Action::ToggleVisualMode)
    } else if s == "DeleteFile"@ {
        Some(Action::DeleteFile)
    } else if s == "CreateBookmark"@ {
        Some(Action::CreateBookmark)
    } else if s == "DeleteBookmark"@ {
        Some(Action::DeleteBookmark)
    } else if s == "ToggleBookmark"@ {
        Some(Action::ToggleBookmark)
    } else if s == "MoveToLeftPanel"@ {
        Some(Action::MoveToLeftPanel)
    } else if s == "MoveToRightPanel"@ {
        Some(Action::MoveToRightPanel)
    } else if s == "MoveEntry"@ {
        Some(Action::MoveEntry)
    } else if s == "ToggleHiddenFiles"@ {
        Some(Action::ToggleHiddenFiles)
    } else if s == "CreateDir"@ {
        Some(Action::CreateDir)
    } else {
        None
    }
}

impl Action {
    /// The action named `s`; names are matched exactly, case included.
    pub fn from_name(s: &str) -> (r: Option<Action>)
        ensures
            r == action_named(s@),
    {
        if str_eq(s, "MoveDown") {
            return Some(Action::MoveDown);
        }
        if str_eq(s, "MoveUp") {
            return Some(Action::MoveUp);
        }
        if str_eq(s, "MoveUpDir") {
            return Some(Action::MoveUpDir);
        }
        if str_eq(s, "EnterDir") {
            return Some(Action::EnterDir);
        }
        if str_eq(s, "Quit") {
            return Some(Action::Quit);
        }
        if str_eq(s, "MoveToTop") {
            return Some(Action::MoveToTop);
        }
        if str_eq(s, "MoveToBottom") {
            return Some(Action::MoveToBottom);
        }
        if str_eq(s, "CopyFiles") {
            return Some(Action::CopyFiles);
        }
        if str_eq(s, "CutFiles") {
            return Some(Action::CutFiles);
        }
        if str_eq(s, "PasteFiles") {
            return Some(Action::PasteFiles);
        }
        if str_eq(s, "OpenCommandMode") {
            return Some(Action::OpenCommandMode);
        }
        if str_eq(s, "ToggleVisualMode") {
            return Some(Action::ToggleVisualMode);
        }
        if str_eq(s, "DeleteFile") {
            return Some(Action::DeleteFile);
        }
        if str_eq(s, "CreateBookmark") {
            return Some(Action::CreateBookmark);
        }
        if str_eq(s, "DeleteBookmark") {
            return Some(Action::DeleteBookmark);
        }
        if str_eq(s, "ToggleBookmark") {
            return Some(Action::ToggleBookmark);
        }
        if str_eq(s, "MoveToLeftPanel") {
            return Some(Action::MoveToLeftPanel);
        }
        if str_eq(s, "MoveToRightPanel") {
            return Some(Action::MoveToRightPanel);
        }
        if str_eq(s, "MoveEntry") {
            return Some(Action::MoveEntry);
        }
        if str_eq(s, "ToggleHiddenFiles") {
            return Some(Action::ToggleHiddenFiles);
        }
        if str_eq(s, "CreateDir") {
            return Some(Action::CreateDir);
        }
        None
    }
}

} // verus!
