//! The state of the browser and what each key press does to it.
//!
//! The state holds what the screen shows of the main list: the entries and
//! the row that the cursor is on. Moving the cursor clamps at both ends, and
//! a cursor that a shorter list leaves behind moves to its last row.

use vstd::prelude::*;
use crate::filemanager::{
    joined_path, opening, toggled, views, ActionView, Entry, EntryType, EntryView, FileManager,
    OpenAction, PathKind, Probe,
};
use crate::fzf::{
    advance_all, fresh, lemma_advance_all_narrows, lemma_advance_all_with_values, narrows, values,
    with_value_at, with_values, ElemView, Fzf,
};
use crate::text::{entry_key, is_uppercase, is_uppercase_char, key_of, lines_of, split_lines};

verus! {

#[verifier::external_type_specification]
#[verifier::external_body]
pub struct ExKey(termion::event::Key);

/// The key presses that the browser tells apart.
#[derive(Clone, Copy, PartialEq, Eq, Debug, Structural)]
pub enum KeyPress {
    /// A character key.
    Char(char),
    /// The escape key.
    Esc,
    /// Any other key.
    Other,
}

/// What a key of the terminal reads as: a character key as its character,
/// the escape key as escape, every other key as `Other`.
pub uninterp spec fn press_of(key: termion::event::Key) -> KeyPress;

/// Reads a `termion::event::Key` by telling its variants apart: `Char`
/// with its character, `Esc`, and all others as one. What comes out
/// depends on the key alone; the contract gives it a name.
#[verifier::external_body]
pub(crate) fn key_press(key: termion::event::Key) -> (r: KeyPress)
    ensures
        r == press_of(key),
{
    match key {
        termion::event::Key::Char(c) => KeyPress::Char(c),
        termion::event::Key::Esc => KeyPress::Esc,
        _ => KeyPress::Other,
    }
}

/// What the caller is to examine before it hands a key press to the state.
#[derive(Debug, PartialEq, Eq)]
pub enum Request {
    /// Nothing: the key press is about no path.
    Nothing,
    /// The path given.
    Examine(String),
}

/// A request as plain values.
pub ghost enum RequestView {
    Nothing,
    Examine(Seq<char>),
}

impl View for Request {
    type V = RequestView;

    open spec fn view(&self) -> RequestView {
        match *self {
            Request::Nothing => RequestView::Nothing,
            Request::Examine(path) => RequestView::Examine(path@),
        }
    }
}

/// A candidate of the filter of the browser: its key is made of code
/// points, its value is an entry.
pub type Candidate = ElemView<u32, EntryView>;

/// `Entry::view` as a function.
pub open spec fn entry_view() -> spec_fn(Entry) -> EntryView {
    |e: Entry| e@
}

/// The candidates of a filter that was just made from `entries`: each
/// under the lower-case form of its name.
pub open spec fn seeded(entries: Seq<EntryView>) -> Seq<Candidate> {
    entries.map_values(|e: EntryView| ElemView { key: key_of(e.name), cursor: -1, value: e })
}

/// The row nearest to `cursor` in a list of `len` rows, and 0 in an empty
/// list.
pub open spec fn clamped(cursor: int, len: int) -> int {
    if len <= 0 || cursor < 0 {
        0
    } else if cursor >= len {
        len - 1
    } else {
        cursor
    }
}

/// `e` with its mark flipped.
pub open spec fn flipped(e: EntryView) -> EntryView {
    EntryView { kind: e.kind, name: e.name, highlighted: !e.highlighted }
}

/// `f` with the mark flipped on the candidate at position `at`; `f` itself
/// where it has no such position.
pub open spec fn marked_at(f: Seq<Candidate>, at: int) -> Seq<Candidate> {
    if 0 <= at < f.len() {
        with_value_at(f, at, flipped(f[at].value))
    } else {
        f
    }
}

/// The lines of a file as the preview shows them: one unmarked file entry
/// for each line.
pub open spec fn file_lines(text: Seq<char>) -> Seq<EntryView> {
    split_lines(text).map_values(
        |l: Seq<char>| EntryView { kind: EntryType::File, name: l, highlighted: false },
    )
}

/// What the preview shows of the path that `target` examined: of a
/// directory its listing, of a file its lines, and nothing of what is
/// neither, could not be read, or was not examined.
pub open spec fn preview_of(target: Option<Probe>) -> Seq<EntryView> {
    match target {
        Some(p) => match p.kind {
            PathKind::Directory => p.listing(),
            PathKind::File => match p.text {
                Some(t) => file_lines(t@),
                None => Seq::empty(),
            },
            _ => Seq::empty(),
        },
        None => Seq::empty(),
    }
}

/// The state of the browser as plain values.
pub ghost struct Model {
    /// The current directory.
    pub path: Seq<char>,
    /// Its listing.
    pub contents: Seq<EntryView>,
    /// The candidates of the filter, where one is active.
    pub filter: Option<Seq<Candidate>>,
    /// The entries of the main list.
    pub shown: Seq<EntryView>,
    /// The row of the main list that the cursor is on.
    pub cursor: int,
    /// The entries of the preview.
    pub preview: Seq<EntryView>,
}

impl Model {
    /// What is to be seen: what the filter has left where one is active,
    /// else the whole listing.
    pub open spec fn visible(self) -> Seq<EntryView> {
        match self.filter {
            Some(f) => values(f),
            None => self.contents,
        }
    }

    /// The main list shows what is to be seen, and the cursor is on one of
    /// its rows.
    pub open spec fn lockstep(self) -> bool {
        &&& self.shown == self.visible()
        &&& self.cursor == clamped(self.cursor, self.shown.len() as int)
    }

    /// The entry that the cursor is on.
    pub open spec fn selected(self) -> Option<EntryView> {
        if 0 <= self.cursor < self.shown.len() {
            Some(self.shown[self.cursor])
        } else {
            None
        }
    }

    /// The main list brought up to what is to be seen, the cursor clamped.
    pub open spec fn refreshed(self) -> Model {
        Model {
            shown: self.visible(),
            cursor: clamped(self.cursor, self.visible().len() as int),
            ..self
        }
    }

    /// The main list brought up to what the filter has left. Where no
    /// filter is active, one is started on the whole listing; an active
    /// filter keeps what it has found so far.
    pub open spec fn reloaded(self) -> Model {
        Model {
            filter: Some(
                match self.filter {
                    Some(f) => f,
                    None => seeded(self.contents),
                },
            ),
            ..self
        }.refreshed()
    }

    /// The cursor one row down, unless it is on the last.
    pub open spec fn cursor_down(self) -> Model {
        if self.cursor + 1 < self.shown.len() {
            Model { cursor: self.cursor + 1, ..self }
        } else {
            self
        }
    }

    /// The cursor one row up, unless it is on the first.
    pub open spec fn cursor_up(self) -> Model {
        if self.cursor > 0 {
            Model { cursor: self.cursor - 1, ..self }
        } else {
            self
        }
    }

    /// The state without its filter.
    pub open spec fn without_filter(self) -> Model {
        Model { filter: None, ..self }
    }

    /// The current directory changed to its child `name`, of which
    /// `target` is the examination, if that is a directory; else nothing
    /// changed.
    pub open spec fn moved_to(self, name: Seq<char>, target: Option<Probe>) -> Model {
        match target {
            Some(p) => if p.kind == PathKind::Directory {
                Model {
                    path: p.resolved(joined_path(self.path, name)),
                    contents: p.listing(),
                    ..self
                }
            } else {
                self
            },
            None => self,
        }
    }

    /// After "go up": the filter dropped, the parent entered where `parent`
    /// found one, and all reloaded.
    pub open spec fn went_up(self, parent: Option<Probe>) -> Model {
        self.without_filter().moved_to(".."@, parent).reloaded()
    }

    /// After "open": the filter dropped, the selected entry entered if it is
    /// a directory, and all reloaded.
    pub open spec fn opened(self, target: Option<Probe>) -> Model {
        match self.selected() {
            Some(e) => self.without_filter().moved_to(e.name, target).reloaded(),
            None => self.without_filter().reloaded(),
        }
    }

    /// What the caller is to run after "open".
    pub open spec fn open_action(
        self,
        target: Option<Probe>,
        answer: Result<Vec<u8>, String>,
        editor: Option<String>,
    ) -> ActionView {
        if self.selected_path() is Some && target is Some {
            match opening(self.selected_path()->0, target->0, answer, editor) {
                Ok(action) => action,
                Err(_) => ActionView::Nothing,
            }
        } else {
            ActionView::Nothing
        }
    }

    /// After escape: a filter started anew on the whole listing.
    pub open spec fn escaped(self) -> Model {
        Model { filter: Some(seeded(self.contents)), ..self }.reloaded()
    }

    /// After "toggle highlight": the mark of the selected entry flipped in
    /// the listing, where the entry is found by its name, and in the
    /// filter, where it is the candidate of the row that the cursor is on.
    /// Nothing changes where nothing is selected.
    pub open spec fn highlighted(self) -> Model {
        match self.selected() {
            Some(e) => Model {
                contents: toggled(self.contents, e.name),
                filter: match self.filter {
                    Some(f) => Some(marked_at(f, self.cursor)),
                    None => None,
                },
                ..self
            }.refreshed(),
            None => self,
        }
    }

    /// After the character `c` was typed: handed to the filter if one is
    /// active and `c` is no upper-case letter, and all reloaded. The filter
    /// goes on from where the characters before left it, so that the typed
    /// characters must appear in a name in the order in which they came.
    pub open spec fn typed(self, c: char) -> Model {
        Model {
            filter: match self.filter {
                Some(f) => if is_uppercase_char(c) {
                    Some(f)
                } else {
                    Some(advance_all(f, c as u32))
                },
                None => None,
            },
            ..self
        }.reloaded()
    }

    /// The state after a key press. `target` is what the caller found at
    /// the path that the key is about: the parent directory for `H`, the
    /// selected entry for `L` and the line feed.
    pub open spec fn after(self, key: KeyPress, target: Option<Probe>) -> Model {
        match key {
            KeyPress::Char(c) => if c == 'J' {
                self.cursor_down()
            } else if c == 'K' {
                self.cursor_up()
            } else if c == 'H' {
                self.went_up(target)
            } else if c == 'L' || c == '\n' {
                self.opened(target)
            } else if c == ' ' {
                self.highlighted()
            } else {
                self.typed(c)
            },
            KeyPress::Esc => self.escaped(),
            KeyPress::Other => self,
        }
    }

    /// What the caller is to run after a key press.
    pub open spec fn action(
        self,
        key: KeyPress,
        target: Option<Probe>,
        answer: Result<Vec<u8>, String>,
        editor: Option<String>,
    ) -> ActionView {
        match key {
            KeyPress::Char(c) => if c == 'L' || c == '\n' {
                self.open_action(target, answer, editor)
            } else {
                ActionView::Nothing
            },
            _ => ActionView::Nothing,
        }
    }

    /// The path of the selected entry.
    pub open spec fn selected_path(self) -> Option<Seq<char>> {
        match self.selected() {
            Some(e) => Some(joined_path(self.path, e.name)),
            None => None,
        }
    }

    /// The path that a key press is about: that of the parent, `..`, for
    /// `H`, that of the selected entry for `L` and the line feed, none for
    /// any other key.
    pub open spec fn request(self, key: KeyPress) -> RequestView {
        match key {
            KeyPress::Char(c) => if c == 'H' {
                RequestView::Examine(joined_path(self.path, ".."@))
            } else if c == 'L' || c == '\n' {
                match self.selected_path() {
                    Some(path) => RequestView::Examine(path),
                    None => RequestView::Nothing,
                }
            } else {
                RequestView::Nothing
            },
            _ => RequestView::Nothing,
        }
    }

    /// The state after the characters of `text` were typed one by one.
    pub open spec fn typed_all(self, text: Seq<char>) -> Model
        decreases text.len(),
    {
        if text.len() == 0 {
            self
        } else {
            self.typed_all(text.drop_last()).typed(text.last())
        }
    }

    /// The state with the preview of the selected entry, which `target`
    /// examined; an empty preview where nothing is selected.
    pub open spec fn previewed(self, target: Option<Probe>) -> Model {
        Model {
            preview: if self.selected() is Some {
                preview_of(target)
            } else {
                Seq::empty()
            },
            ..self
        }
    }
}

/// A filter that was just started shows all that it was started on.
pub proof fn lemma_seeded_values(entries: Seq<EntryView>)
    ensures
        values(seeded(entries)) == entries,
{
}

/// A reload puts the main list in step: it shows exactly what was to be
/// seen, the filter is active, and the cursor is on a row of the list or,
/// in an empty list, at its top.
pub proof fn lemma_reload_in_lockstep(m: Model)
    ensures
        m.reloaded().lockstep(),
        m.reloaded().filter is Some,
        m.reloaded().shown == m.visible(),
{
    lemma_seeded_values(m.contents);
}

/// No key press takes the main list out of step: once it shows exactly
/// what is to be seen, with the cursor within it, it does so after every
/// key press, whatever the caller found on the filesystem.
pub proof fn lemma_lockstep_kept(m: Model, key: KeyPress, target: Option<Probe>)
    requires
        m.lockstep(),
    ensures
        m.after(key, target).lockstep(),
{
    lemma_reload_in_lockstep(m.without_filter().moved_to(".."@, target));
    if m.selected() is Some {
        lemma_reload_in_lockstep(m.without_filter().moved_to(m.selected()->0.name, target));
    }
    lemma_reload_in_lockstep(m.without_filter());
    lemma_reload_in_lockstep(Model { filter: Some(seeded(m.contents)), ..m });
    match key {
        KeyPress::Char(c) => {
            lemma_reload_in_lockstep(
                Model {
                    filter: match m.filter {
                        Some(f) => if is_uppercase_char(c) {
                            Some(f)
                        } else {
                            Some(advance_all(f, c as u32))
                        },
                        None => None,
                    },
                    ..m
                },
            );
        },
        _ => {},
    }
}

/// Typing only narrows. With a filter active, what the filter holds after a
/// character is what it held before or a part of it, in the same order and
/// with no cursor moved back; and the main list then shows no more than
/// was to be seen before.
pub proof fn lemma_typing_narrows(m: Model, c: char)
    requires
        m.filter is Some,
        forall|i: int| 0 <= i < m.filter->0.len() ==> -1 <= (#[trigger] m.filter->0[i]).cursor,
    ensures
        m.typed(c).filter matches Some(left) && (left == m.filter->0 || narrows(
            m.filter->0,
            left,
        )),
        m.typed(c).shown.len() <= m.visible().len(),
{
    lemma_advance_all_narrows(m.filter->0, c as u32);
}

/// Typing changes neither the current directory nor its listing.
pub proof fn lemma_typing_keeps_listing(m: Model, text: Seq<char>)
    ensures
        m.typed_all(text).path == m.path,
        m.typed_all(text).contents == m.contents,
    decreases text.len(),
{
    if text.len() > 0 {
        lemma_typing_keeps_listing(m, text.drop_last());
    }
}

/// A mark outlives the filter. Mark the selected entry, type whatever
/// text, and press escape: the main list then shows the whole listing
/// again, with the mark of that entry flipped and every other entry as it
/// was.
pub proof fn lemma_mark_survives_filter(m: Model, text: Seq<char>)
    requires
        m.selected() is Some,
    ensures
        m.highlighted().typed_all(text).escaped().shown == toggled(
            m.contents,
            m.selected()->0.name,
        ),
{
    let marked = m.highlighted();
    lemma_typing_keeps_listing(marked, text);
    let typed = marked.typed_all(text);
    lemma_seeded_values(typed.contents);
    lemma_reload_in_lockstep(Model { filter: Some(seeded(typed.contents)), ..typed });
}

/// Marking flips the row under the cursor in place. In a state in step
/// with an active filter, the main list after marking is the list before
/// with the mark of the selected row flipped: no other row changes, none
/// moves, and the cursor stays where it is. The filter loses nothing of
/// what it has found: it holds the same candidates in the same order, each
/// with its key and cursor. In the listing the mark flips on the entry of
/// that name.
pub proof fn lemma_mark_flips_selected_row(m: Model)
    requires
        m.lockstep(),
        m.selected() is Some,
        m.filter is Some,
    ensures
        m.highlighted().shown == m.shown.update(m.cursor, flipped(m.selected()->0)),
        m.highlighted().cursor == m.cursor,
        m.highlighted().lockstep(),
        m.highlighted().contents == toggled(m.contents, m.selected()->0.name),
        m.highlighted().filter == Some(
            with_value_at(m.filter->0, m.cursor, flipped(m.selected()->0)),
        ),
{
    let f = m.filter->0;
    let e = m.selected()->0;
    assert(e == f[m.cursor].value);
    assert(m.highlighted().shown =~= m.shown.update(m.cursor, flipped(e)));
}

/// Without a filter the main list shows the listing itself, where an entry
/// is found by its name. Marking then flips the row under the cursor in
/// place as well, as long as no other entry of the listing has the name of
/// the selected one.
pub proof fn lemma_mark_flips_selected_row_of_listing(m: Model)
    requires
        m.lockstep(),
        m.selected() is Some,
        m.filter is None,
        forall|i: int|
            0 <= i < m.contents.len() && i != m.cursor ==> (#[trigger] m.contents[i]).name
                != m.selected()->0.name,
    ensures
        m.highlighted().shown == m.shown.update(m.cursor, flipped(m.selected()->0)),
        m.highlighted().cursor == m.cursor,
        m.highlighted().lockstep(),
{
    assert(m.highlighted().shown =~= m.shown.update(m.cursor, flipped(m.selected()->0)));
}

/// The preview does not depend on the filter: of a selected directory it
/// shows the listing of that directory, whatever the filter of the main
/// list holds.
pub proof fn lemma_preview_ignores_filter(
    m: Model,
    filter: Option<Seq<Candidate>>,
    target: Probe,
)
    requires
        m.selected() is Some,
        target.kind == PathKind::Directory,
    ensures
        m.previewed(Some(target)).preview == target.listing(),
        (Model { filter, ..m }).previewed(Some(target)).preview == target.listing(),
{
}

/// Going up from a directory that is its own parent leaves the path as it
/// is; the main list shows the listing as it was read anew.
pub proof fn lemma_up_from_root(m: Model, parent: Probe)
    requires
        parent.kind == PathKind::Directory,
        parent.canonical matches Some(path) && path@ == m.path,
    ensures
        m.went_up(Some(parent)).path == m.path,
        m.went_up(Some(parent)).shown == parent.listing(),
{
    lemma_reload_in_lockstep(m.without_filter().moved_to(".."@, Some(parent)));
}

/// The state of the browser.
pub struct FmState {
    /// The current directory and its listing.
    pub fm: FileManager,
    /// The filter, once the list was loaded.
    pub fzf: Option<Fzf<u32, Entry>>,
    /// The entries of the main list.
    pub shown: Vec<Entry>,
    /// The row of the main list that the cursor is on.
    pub cursor: usize,
    /// The entries of the preview.
    pub preview: Vec<Entry>,
}

impl View for FmState {
    type V = Model;

    open spec fn view(&self) -> Model {
        Model {
            path: self.fm.path@,
            contents: views(self.fm.contents@),
            filter: match self.fzf {
                Some(f) => Some(with_values(f@, entry_view())),
                None => None,
            },
            shown: views(self.shown@),
            cursor: self.cursor as int,
            preview: views(self.preview@),
        }
    }
}

/// Copies of values that the filter handed out are the values.
proof fn lemma_remaining(f: Seq<ElemView<u32, Entry>>, r: Seq<Entry>)
    requires
        r.len() == f.len(),
        forall|i: int| 0 <= i < r.len() ==> cloned(values(f)[i], #[trigger] r[i]),
    ensures
        views(r) == values(with_values(f, entry_view())),
{
    assert forall|i: int| 0 <= i < r.len() implies #[trigger] views(r)[i] == values(
        with_values(f, entry_view()),
    )[i] by {
        assert(cloned(values(f)[i], r[i]));
    }
}

impl FmState {
    /// The state of a browser that has just been pointed at a directory:
    /// nothing is loaded into the lists yet.
    pub fn new(fm: FileManager) -> (r: FmState)
        ensures
            r.fm == fm,
            r@ == (Model {
                path: fm.path@,
                contents: views(fm.contents@),
                filter: None,
                shown: Seq::empty(),
                cursor: 0,
                preview: Seq::empty(),
            }),
    {
        let r = FmState { fm, fzf: None, shown: Vec::new(), cursor: 0, preview: Vec::new() };
        assert(r@.shown =~= Seq::empty() && r@.preview =~= Seq::empty());
        r
    }

    /// The name of the entry that the cursor is on.
    pub fn get_selected(&self) -> (r: Option<String>)
        ensures
            match r {
                Some(name) => self@.selected() matches Some(e) && name@ == e.name,
                None => self@.selected() is None,
            },
    {
        if self.cursor < self.shown.len() {
            Some(self.shown[self.cursor].name.clone())
        } else {
            None
        }
    }

    /// Moves the cursor one row down, unless it is on the last.
    pub fn next(&mut self)
        ensures
            final(self)@ == old(self)@.cursor_down(),
    {
        if self.cursor < self.shown.len() && self.cursor + 1 < self.shown.len() {
            self.cursor = self.cursor + 1;
        }
    }

    /// Moves the cursor one row up, unless it is on the first.
    pub fn prev(&mut self)
        ensures
            final(self)@ == old(self)@.cursor_up(),
    {
        if self.cursor > 0 {
            self.cursor = self.cursor - 1;
        }
    }

    /// Brings the main list up to what is to be seen, and the cursor back
    /// into it.
    fn refresh(&mut self)
        ensures
            final(self)@ == old(self)@.refreshed(),
    {
        let visible = match &self.fzf {
            Some(f) => {
                let r = f.get_remaining();
                proof {
                    lemma_remaining(f@, r@);
                }
                r
            },
            None => self.fm.get_contents(),
        };
        let n: usize = visible.len();
        self.shown = visible;
        if n == 0 {
            self.cursor = 0;
        } else if self.cursor >= n {
            self.cursor = n - 1;
        }
    }

    /// Resets the main list to what the filter has left, the cursor kept
    /// within it. Starts the filter on the whole listing where none is
    /// active.
    pub fn reload(&mut self)
        ensures
            final(self)@ == old(self)@.reloaded(),
    {
        if self.fzf.is_none() {
            let contents = self.fm.get_contents();
            self.set_fzf(contents);
        }
        self.refresh();
    }

    /// Starts the filter anew on `contents`: each entry under the
    /// lower-case form of its name.
    fn set_fzf(&mut self, contents: Vec<Entry>)
        ensures
            final(self)@ == (Model { filter: Some(seeded(views(contents@))), ..old(self)@ }),
    {
        let mut pairs: Vec<(Vec<u32>, Entry)> = Vec::new();
        let ghost all = contents@;
        for entry in it: contents
            invariant
                it.seq() == all,
                pairs@.len() == it.index(),
                forall|k: int|
                    0 <= k < pairs@.len() ==> (#[trigger] pairs@[k]).0@ == key_of(all[k].name@)
                        && pairs@[k].1 == all[k],
        {
            let key = entry_key(entry.name.as_str());
            pairs.push((key, entry));
        }
        let ghost made = pairs@;
        self.fzf = Some(Fzf::new(pairs));
        assert(with_values(fresh(made), entry_view()) =~= seeded(views(all)));
    }
    /// Changes directory to the parent, of which `parent` is the
    /// examination, and reloads. A parent that is missing or no directory
    /// changes nothing.
    fn go_to_parent(&mut self, parent: Option<Probe>)
        ensures
            final(self)@ == old(self)@.moved_to(".."@, parent).reloaded(),
    {
        match parent {
            Some(p) => {
                let _ = self.fm.change_dir("..", p);
            },
            None => {},
        }
        self.reload();
    }

    /// Opens the selected entry, which `target` examined: enters it if it
    /// is a directory, else says what the caller is to run on it. Reloads
    /// in either case. Errors are not passed on: the entry then stays
    /// unopened.
    fn open(
        &mut self,
        target: Option<Probe>,
        answer: Result<Vec<u8>, String>,
        editor: Option<String>,
    ) -> (r: OpenAction)
        ensures
            final(self)@ == (match old(self)@.selected() {
                Some(e) => old(self)@.moved_to(e.name, target).reloaded(),
                None => old(self)@.reloaded(),
            }),
            r@ == old(self)@.open_action(target, answer, editor),
    {
        let mut action = OpenAction::Nothing;
        match self.get_selected() {
            Some(name) => {
                match target {
                    Some(p) => {
                        match self.fm.open_child(name.as_str(), p, answer, editor) {
                            Ok(a) => {
                                action = a;
                            },
                            Err(_) => {},
                        }
                    },
                    None => {},
                }
            },
            None => {},
        }
        self.reload();
        action
    }

    /// Works out the preview of the selected entry, which `target`
    /// examined: the listing of a directory, the lines of a file, and
    /// nothing where nothing is selected or nothing could be read.
    fn preview(&mut self, target: Option<Probe>)
        ensures
            final(self)@ == old(self)@.previewed(target),
    {
        let mut elements: Vec<Entry> = Vec::new();
        assert(views(elements@) =~= Seq::empty());
        match (self.get_selected(), target) {
            (Some(name), Some(p)) => {
                let kind = match self.fm.get_type_of_child(name.as_str(), &p) {
                    Ok(kind) => kind,
                    Err(_) => EntryType::Directory,
                };
                match kind {
                    EntryType::Directory => {
                        match self.fm.get_contents_of_child(name.as_str(), p) {
                            Ok(listing) => {
                                elements = listing;
                            },
                            Err(_) => {},
                        }
                    },
                    EntryType::File => {
                        match p.text {
                            Some(text) => {
                                elements = line_entries(lines_of(text.as_str()));
                            },
                            None => {},
                        }
                    },
                }
            },
            _ => {},
        }
        self.preview = elements;
    }

    /// Brings the state up to what the screen is to show: the preview of
    /// the selected entry, which `target` examined.
    pub fn show(&mut self, target: Option<Probe>)
        ensures
            final(self)@ == old(self)@.previewed(target),
    {
        self.preview(target);
    }

    /// Flips the mark of the selected entry: in the listing, where it is
    /// found by its name, and in the filter, where it is the element of the
    /// row that the cursor is on. The filter keeps what it has found.
    fn highlight_selected(&mut self)
        ensures
            final(self)@ == old(self)@.highlighted(),
    {
        let name = match self.get_selected() {
            Some(name) => name,
            None => {
                return ;
            },
        };
        let taken = self.fzf.take();
        match taken {
            Some(mut f) => {
                let ghost before = f@;
                match f.get_value_at(self.cursor) {
                    Some(v) => {
                        let marked = Entry { kind: v.kind, name: v.name, highlighted: !v.highlighted };
                        f.update_value_at(self.cursor, marked);
                        assert(with_values(f@, entry_view()) =~= marked_at(
                            with_values(before, entry_view()),
                            self.cursor as int,
                        ));
                    },
                    None => {},
                }
                self.fzf = Some(f);
            },
            None => {},
        }
        self.fm.toggle_highlight_of(name);
        self.refresh();
    }

    /// The path of the entry that the cursor is on: what the caller is to
    /// examine for the preview.
    pub fn selected_path(&self) -> (r: Option<String>)
        ensures
            match r {
                Some(path) => self@.selected_path() == Some(path@),
                None => self@.selected_path() is None,
            },
    {
        match self.get_selected() {
            Some(name) => Some(self.fm.child_path(name.as_str())),
            None => None,
        }
    }

    /// Says which path the caller is to examine for a key press.
    pub fn request_for_press(&self, key: KeyPress) -> (r: Request)
        ensures
            r@ == self@.request(key),
    {
        match key {
            KeyPress::Char(c) => {
                if c == 'H' {
                    Request::Examine(self.fm.child_path(".."))
                } else if c == 'L' || c == '\n' {
                    match self.selected_path() {
                        Some(path) => Request::Examine(path),
                        None => Request::Nothing,
                    }
                } else {
                    Request::Nothing
                }
            },
            _ => Request::Nothing,
        }
    }

    /// Says which path the caller is to examine for a key of the terminal:
    /// the one for the key press that the key reads as.
    pub fn request_for_key(&self, key: termion::event::Key) -> (r: Request)
        ensures
            r@ == self@.request(press_of(key)),
    {
        self.request_for_press(key_press(key))
    }

    /// Handles a key press. `target` is what the caller found at the path
    /// that the key is about: the parent directory for `H`, the selected
    /// entry for `L` and the line feed, with `answer` the outcome of the
    /// media type query for it and `editor` the configured editor. Says
    /// what the caller is to run.
    pub fn handle_press(
        &mut self,
        key: KeyPress,
        target: Option<Probe>,
        answer: Result<Vec<u8>, String>,
        editor: Option<String>,
    ) -> (r: OpenAction)
        ensures
            final(self)@ == old(self)@.after(key, target),
            r@ == old(self)@.action(key, target, answer, editor),
    {
        match key {
            KeyPress::Char(c) => {
                if c == 'J' {
                    self.next();
                } else if c == 'K' {
                    self.prev();
                } else if c == 'H' {
                    self.fzf = None;
                    self.go_to_parent(target);
                } else if c == 'L' || c == '\n' {
                    self.fzf = None;
                    return self.open(target, answer, editor);
                } else if c == ' ' {
                    self.highlight_selected();
                } else {
                    if !is_uppercase(c) {
                        let taken = self.fzf.take();
                        match taken {
                            Some(mut f) => {
                                let ghost before = f@;
                                let _ = f.next(c as u32);
                                proof {
                                    lemma_advance_all_with_values(before, entry_view(), c as u32);
                                }
                                self.fzf = Some(f);
                            },
                            None => {},
                        }
                    }
                    self.reload();
                }
            },
            KeyPress::Esc => {
                let contents = self.fm.get_contents();
                self.set_fzf(contents);
                self.reload();
            },
            KeyPress::Other => {},
        }
        OpenAction::Nothing
    }

    /// Handles a key of the terminal as `handle_press` handles the key
    /// press that the key reads as.
    pub fn handle_key(
        &mut self,
        key: termion::event::Key,
        target: Option<Probe>,
        answer: Result<Vec<u8>, String>,
        editor: Option<String>,
    ) -> (r: OpenAction)
        ensures
            final(self)@ == old(self)@.after(press_of(key), target),
            r@ == old(self)@.action(press_of(key), target, answer, editor),
    {
        self.handle_press(key_press(key), target, answer, editor)
    }
}

/// Makes the entries of a preview from the lines of a file.
fn line_entries(lines: Vec<String>) -> (r: Vec<Entry>)
    ensures
        views(r@) == lines@.map_values(|l: String| l@).map_values(
            |l: Seq<char>| EntryView { kind: EntryType::File, name: l, highlighted: false },
        ),
{
    let mut out: Vec<Entry> = Vec::new();
    let ghost all = lines@;
    for line in it: lines
        invariant
            it.seq() == all,
            out@.len() == it.index(),
            forall|k: int|
                0 <= k < out@.len() ==> (#[trigger] out@[k])@ == (EntryView {
                    kind: EntryType::File,
                    name: all[k]@,
                    highlighted: false,
                }),
    {
        out.push(Entry { kind: EntryType::File, name: line, highlighted: false });
    }
    assert(views(out@) =~= all.map_values(|l: String| l@).map_values(
        |l: Seq<char>| EntryView { kind: EntryType::File, name: l, highlighted: false },
    ));
    out
}

} // verus!
