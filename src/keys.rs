//! Key presses and chords.

use vstd::prelude::*;

verus! {

/// The key of a key press: a character, or one of the named keys that the
/// command line reacts to.
#[derive(Clone, Copy, Debug, PartialEq, Eq, Structural)]
pub enum KeyCode {
    Char(char),
    Esc,
    Enter,
    Backspace,
    Up,
    Down,
    Tab,
    BackTab,
    Other,
}

/// One key press: a key and the set of modifiers held with it.
///
/// Values built by `KeyPress::new` are in normal form: an upper-case ASCII
/// letter always carries Shift, and Shift with a lower-case ASCII letter is
/// stored as the upper-case letter. Equality is then plain structural
/// equality.
#[derive(Clone, Copy, Debug, PartialEq, Eq, Structural)]
pub struct KeyPress {
    pub code: KeyCode,
    pub control: bool,
    pub shift: bool,
    pub alt: bool,
}

pub open spec fn is_ascii_upper(c: char) -> bool {
    'A' <= c && c <= 'Z'
}

pub open spec fn is_ascii_lower(c: char) -> bool {
    'a' <= c && c <= 'z'
}

pub open spec fn upper_of(c: char) -> char {
    if is_ascii_lower(c) {
        ((c as u32) - 32) as char
    } else {
        c
    }
}

/// The normal form of a key press (see `KeyPress`).
pub open spec fn normalized(code: KeyCode, control: bool, shift: bool, alt: bool) -> KeyPress {
    match code {
        KeyCode::Char(c) => {
            if is_ascii_upper(c) {
                KeyPress { code, control, shift: true, alt }
            } else if shift {
                KeyPress { code: KeyCode::Char(upper_of(c)), control, shift, alt }
            } else {
                KeyPress { code, control, shift, alt }
            }
        },
        _ => KeyPress { code, control, shift, alt },
    }
}

/// `p` is a prefix of `c`, in the same order.
pub open spec fn is_prefix(p: Seq<KeyPress>, c: Seq<KeyPress>) -> bool {
    p.len() <= c.len() && c.subrange(0, p.len() as int) == p
}

/// `p` is a prefix of `c` and shorter than it.
pub open spec fn is_strict_prefix(p: Seq<KeyPress>, c: Seq<KeyPress>) -> bool {
    p.len() < c.len() && c.subrange(0, p.len() as int) == p
}

impl KeyPress {
    /// A key press in normal form.
    pub fn new(code: KeyCode, control: bool, shift: bool, alt: bool) -> (r: KeyPress)
        ensures
            r == normalized(code, control, shift, alt),
    {
        match code {
            KeyCode::Char(c) => {
                if 'A' <= c && c <= 'Z' {
                    KeyPress { code, control, shift: true, alt }
                } else if shift {
                    let u = if 'a' <= c && c <= 'z' {
                        char_from_u32((c as u32) - 32)
                    } else {
                        c
                    };
                    KeyPress { code: KeyCode::Char(u), control, shift, alt }
                } else {
                    KeyPress { code, control, shift, alt }
                }
            },
            _ => KeyPress { code, control, shift, alt },
        }
    }

    /// A character typed with no modifier.
    pub fn plain(c: char) -> (r: KeyPress)
        ensures
            r == normalized(KeyCode::Char(c), false, false, false),
    {
        KeyPress::new(KeyCode::Char(c), false, false, false)
    }

    /// A character typed with Control held.
    pub fn control(c: char) -> (r: KeyPress)
        ensures
            r == normalized(KeyCode::Char(c), true, false, false),
    {
        KeyPress::new(KeyCode::Char(c), true, false, false)
    }
}

/// The character of an ASCII code point.
fn char_from_u32(n: u32) -> (c: char)
    requires
        n < 128,
    ensures
        c as u32 == n,
{
    (n as u8) as char
}

/// Whether two chords hold the same key presses in the same order.
pub fn same_chord(a: &Vec<KeyPress>, b: &Vec<KeyPress>) -> (r: bool)
    ensures
        r == (a@ == b@),
{
    if a.len() != b.len() {
        return false;
    }
    let mut i: usize = 0;
    while i < a.len()
        invariant
            a.len() == b.len(),
            i <= a.len(),
            forall|j: int| 0 <= j < i ==> a@[j] == b@[j],
        decreases a.len() - i,
    {
        if a[i] != b[i] {
            return false;
        }
        i = i + 1;
    }
    assert(a@ =~= b@);
    true
}

/// Whether `p` is a prefix of `c`.
pub fn chord_starts_with(c: &Vec<KeyPress>, p: &Vec<KeyPress>) -> (r: bool)
    ensures
        r == is_prefix(p@, c@),
{
    if p.len() > c.len() {
        return false;
    }
    let mut i: usize = 0;
    while i < p.len()
        invariant
            p.len() <= c.len(),
            i <= p.len(),
            forall|j: int| 0 <= j < i ==> c@[j] == p@[j],
        decreases p.len() - i,
    {
        if c[i] != p[i] {
            assert(c@.subrange(0, p@.len() as int)[i as int] != p@[i as int]);
            return false;
        }
        i = i + 1;
    }
    assert(c@.subrange(0, p@.len() as int) =~= p@);
    true
}

} // verus!
