//! The colours of the lists.

use vstd::prelude::*;
use crate::filemanager::EntryType;

verus! {

/// A colour of the terminal; `Reset` is its default.
#[derive(Clone, Copy, PartialEq, Eq, Debug, Structural)]
pub enum Color {
    Black,
    Blue,
    Yellow,
    White,
    Reset,
}

/// Standard theme, used in the main list: foreground and background of an
/// entry of type `t.0` that is marked if `t.1` and under the cursor if `b`.
/// A marked entry is yellow, whatever its type; an unmarked directory is
/// blue and an unmarked file plain. Under the cursor the colour moves to
/// the background, white for a plain file.
pub fn std_theme(t: (EntryType, bool), b: bool) -> (r: (Color, Color))
    ensures
        t.1 && !b ==> r == (Color::Yellow, Color::Reset),
        t.1 && b ==> r == (Color::Black, Color::Yellow),
        !t.1 && t.0 == EntryType::Directory && !b ==> r == (Color::Blue, Color::Reset),
        !t.1 && t.0 == EntryType::Directory && b ==> r == (Color::Reset, Color::Blue),
        !t.1 && t.0 == EntryType::File && !b ==> r == (Color::Reset, Color::Reset),
        !t.1 && t.0 == EntryType::File && b ==> r == (Color::Reset, Color::White),
{
    match (t, b) {
        ((_, true), false) => (Color::Yellow, Color::Reset),
        ((_, true), true) => (Color::Black, Color::Yellow),
        ((EntryType::Directory, false), false) => (Color::Blue, Color::Reset),
        ((EntryType::Directory, false), true) => (Color::Reset, Color::Blue),
        ((EntryType::File, false), false) => (Color::Reset, Color::Reset),
        ((EntryType::File, false), true) => (Color::Reset, Color::White),
    }
}

/// Standard theme without marks, used in the preview: a directory is blue
/// and a file plain, under the cursor or not.
pub fn std_theme_no_highlight(t: EntryType, b: bool) -> (r: (Color, Color))
    ensures
        t == EntryType::Directory ==> r == (Color::Blue, Color::Reset),
        t == EntryType::File ==> r == (Color::Reset, Color::Reset),
{
    match (t, b) {
        (EntryType::Directory, _) => (Color::Blue, Color::Reset),
        (EntryType::File, _) => (Color::Reset, Color::Reset),
    }
}

} // verus!
