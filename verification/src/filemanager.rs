//! The model of the directory that is being browsed.

use vstd::prelude::*;
use crate::order::{in_listing_order, lemma_listing_of, listing_of, sort_listing, Item};
use crate::utils::{get_mime_type, reported_type};

verus! {

/// The type of an element in a directory. Directories order before files.
#[derive(Clone, Copy, PartialEq, Eq, PartialOrd, Ord, Debug, Structural)]
pub enum EntryType {
    Directory,
    File,
}

impl EntryType {
    /// Position of the type in a listing: directories first.
    pub open spec fn rank(self) -> int {
        match self {
            EntryType::Directory => 0,
            EntryType::File => 1,
        }
    }
}

/// What the filesystem reports a path to be.
#[derive(Clone, Copy, PartialEq, Eq, Debug, Structural)]
pub enum PathKind {
    /// Nothing exists at the path.
    Missing,
    /// The path resolves to a directory.
    Directory,
    /// The path resolves to a regular file.
    File,
    /// Something exists there that is neither (a socket, a broken link).
    Other,
}

/// One element of a listing: its type, the last component of its path, and
/// whether the user has marked it.
#[derive(Debug, PartialEq, Eq)]
pub struct Entry {
    pub kind: EntryType,
    pub name: String,
    pub highlighted: bool,
}

/// An entry as plain values.
pub ghost struct EntryView {
    pub kind: EntryType,
    pub name: Seq<char>,
    pub highlighted: bool,
}

impl View for Entry {
    type V = EntryView;

    open spec fn view(&self) -> EntryView {
        EntryView { kind: self.kind, name: self.name@, highlighted: self.highlighted }
    }
}

/// The views of a sequence of entries, in the same order.
pub open spec fn views(s: Seq<Entry>) -> Seq<EntryView> {
    s.map_values(|e: Entry| e@)
}

/// One entry for each item, in the same order, none marked.
pub open spec fn unmarked(items: Seq<Item>) -> Seq<EntryView> {
    items.map_values(|it: Item| EntryView { kind: it.0, name: it.1, highlighted: false })
}

impl Clone for Entry {
    fn clone(&self) -> (r: Self)
        ensures
            r == *self,
    {
        Entry { kind: self.kind, name: self.name.clone(), highlighted: self.highlighted }
    }
}

/// Why an operation on the file manager did not go through.
#[derive(Clone, Copy, PartialEq, Eq, Debug, Structural)]
pub enum FmError {
    /// Nothing exists at the path.
    NotFound,
    /// The path exists and is not a directory.
    NotADirectory,
    /// The path exists and is neither a file nor a directory.
    TypeUnknown,
    /// The directory could not be read.
    Io,
    /// A listing was asked of a file.
    EntryIsFile,
    /// No editor is configured for text files.
    ConfigMissing,
}

impl FmError {
    /// The text that `message` gives for each error.
    pub open spec fn message_text(self) -> Seq<char> {
        match self {
            FmError::NotFound => "Path does not exist"@,
            FmError::NotADirectory => "Path is not a folder"@,
            FmError::TypeUnknown => "Path type not known"@,
            FmError::Io => "Directory could not be read"@,
            FmError::EntryIsFile => "Entry is file"@,
            FmError::ConfigMissing => "No editor is configured"@,
        }
    }

    /// A short description of the error for the user.
    pub fn message(&self) -> (r: &'static str)
        ensures
            r@ == self.message_text(),
    {
        match self {
            FmError::NotFound => "Path does not exist",
            FmError::NotADirectory => "Path is not a folder",
            FmError::TypeUnknown => "Path type not known",
            FmError::Io => "Directory could not be read",
            FmError::EntryIsFile => "Entry is file",
            FmError::ConfigMissing => "No editor is configured",
        }
    }
}

/// What an examination of one path of the filesystem found. The caller
/// examines; the file manager only reads what is written here.
#[derive(Debug, PartialEq, Eq)]
pub struct Probe {
    /// What was found at the path.
    pub kind: PathKind,
    /// The canonical form of the path, where one could be resolved.
    pub canonical: Option<String>,
    /// For a directory, kind and name of each direct child, in any order;
    /// `None` where the directory could not be read.
    pub children: Option<Vec<(PathKind, String)>>,
    /// For a file, its content; `None` where it could not be read as text.
    pub text: Option<String>,
}

impl Probe {
    /// Where a probe of the path `examined` leads: the canonical path if
    /// there is one, else the path as it was examined.
    pub open spec fn resolved(self, examined: Seq<char>) -> Seq<char> {
        match self.canonical {
            Some(c) => c@,
            None => examined,
        }
    }

    /// The listing that a probe of a directory gives: that of its children,
    /// none marked, and nothing where they could not be read.
    pub open spec fn listing(self) -> Seq<EntryView> {
        match self.children {
            Some(raw) => unmarked(listing_of(raw@)),
            None => Seq::empty(),
        }
    }
}

/// What is to follow when the user opens a child of the current directory.
#[derive(Debug, PartialEq, Eq)]
pub enum OpenAction {
    /// Nothing: the child could not be resolved to a file or a directory.
    Nothing,
    /// Nothing more: the child is a directory and is now the current one.
    Entered,
    /// Run `editor` on the text file at `path`, and wait until it ends.
    Edit { editor: String, path: String },
    /// Hand the file at `path` to the opener for other content, and do not
    /// wait for it.
    Launch { path: String },
}

/// An action as plain values.
pub ghost enum ActionView {
    Nothing,
    Entered,
    Edit { editor: Seq<char>, path: Seq<char> },
    Launch { path: Seq<char> },
}

impl View for OpenAction {
    type V = ActionView;

    open spec fn view(&self) -> ActionView {
        match *self {
            OpenAction::Nothing => ActionView::Nothing,
            OpenAction::Entered => ActionView::Entered,
            OpenAction::Edit { editor, path } => ActionView::Edit { editor: editor@, path: path@ },
            OpenAction::Launch { path } => ActionView::Launch { path: path@ },
        }
    }
}

/// Whether the media type query says that a file holds text. A query that
/// could not be run says that it does not.
pub open spec fn is_text_answer(answer: Result<Vec<u8>, String>) -> bool {
    answer matches Ok(bytes) && reported_type(bytes@) == "text"@
}

/// Decides `is_text_answer`.
pub fn answer_is_text(answer: Result<Vec<u8>, String>) -> (r: bool)
    ensures
        r == is_text_answer(answer),
{
    match get_mime_type(answer) {
        Ok(top) => {
            let text: String = "text".to_owned();
            top == text
        },
        Err(_) => false,
    }
}

/// The path that `name` leads to from the directory `base`, as
/// `Path::join` of std puts it together.
pub uninterp spec fn joined_path(base: Seq<char>, name: Seq<char>) -> Seq<char>;

/// Calls `Path::join` of std on `base` and `name`. The result depends on
/// the two alone; the contract gives it a name and claims nothing of how
/// it is spelled.
#[verifier::external_body]
fn join_path(base: &str, name: &str) -> (r: String)
    ensures
        r@ == joined_path(base@, name@),
{
    std::path::Path::new(base).join(name).to_string_lossy().into_owned()
}

/// What opening the child at `path`, of which `child` is the examination,
/// comes to: a directory is entered; a file goes to the editor if the media
/// type query says text and to the opener if not, and there is an error if
/// it is text and no editor is configured; anything else is left alone.
pub open spec fn opening(
    path: Seq<char>,
    child: Probe,
    answer: Result<Vec<u8>, String>,
    editor: Option<String>,
) -> Result<ActionView, FmError> {
    match child.kind {
        PathKind::Directory => Ok(ActionView::Entered),
        PathKind::File => if is_text_answer(answer) {
            match editor {
                Some(configured) => Ok(ActionView::Edit { editor: configured@, path }),
                None => Err(FmError::ConfigMissing),
            }
        } else {
            Ok(ActionView::Launch { path })
        },
        _ => Ok(ActionView::Nothing),
    }
}

/// A result of `open_child` as plain values.
pub open spec fn opened_view(r: Result<OpenAction, FmError>) -> Result<ActionView, FmError> {
    match r {
        Ok(action) => Ok(action@),
        Err(e) => Err(e),
    }
}

/// The management of the current directory: where it is and what it holds.
#[derive(Debug, PartialEq, Eq)]
pub struct FileManager {
    /// The current directory.
    pub path: String,
    /// The listing of the current directory as it was when last read.
    pub contents: Vec<Entry>,
}

/// `s` with the mark flipped on every entry named `name`.
pub open spec fn toggled(s: Seq<EntryView>, name: Seq<char>) -> Seq<EntryView> {
    s.map_values(
        |e: EntryView|
            EntryView {
                kind: e.kind,
                name: e.name,
                highlighted: if e.name == name {
                    !e.highlighted
                } else {
                    e.highlighted
                },
            },
    )
}

/// Copies a listing.
pub fn clone_entries(v: &Vec<Entry>) -> (r: Vec<Entry>)
    ensures
        r@ == v@,
{
    let mut out: Vec<Entry> = Vec::new();
    let mut i: usize = 0;
    while i < v.len()
        invariant
            i <= v.len(),
            out@ == v@.take(i as int),
        decreases v.len() - i,
    {
        out.push(v[i].clone());
        i = i + 1;
    }
    out
}

impl FileManager {
    /// Creates a file manager for the directory at `path`, of which
    /// `start` is the examination: at its canonical path where one was
    /// resolved, with its listing, or with an empty one where the directory
    /// could not be read.
    pub fn new(path: &str, start: Probe) -> (fm: FileManager)
        ensures
            fm.path@ == start.resolved(path@),
            views(fm.contents@) == start.listing(),
    {
        let mut fm = FileManager { path: path.to_owned(), contents: Vec::new() };
        fm.canonicalize(start.canonical);
        fm.set_contents(start.children);
        fm
    }

    /// The listing of a directory whose children are `children`: its
    /// directories and files, sorted by type and then by name, none marked.
    /// Fails if the directory could not be read.
    pub fn get_contents_from_path(children: Option<Vec<(PathKind, String)>>) -> (r: Result<
        Vec<Entry>,
        FmError,
    >)
        ensures
            match r {
                Ok(v) => children matches Some(raw) && views(v@) == unmarked(listing_of(raw@)),
                Err(e) => children is None && e == FmError::Io,
            },
            r matches Ok(v) ==> in_listing_order(views(v@)),
    {
        match children {
            Some(raw) => {
                proof {
                    lemma_listing_of(raw@);
                }
                Ok(sort_listing(raw))
            },
            None => Err(FmError::Io),
        }
    }

    /// Opens the child `dir`, of which `child` is the examination. A
    /// directory becomes the current one. For a file the result says what
    /// is to be run on its path: the editor if `answer`, the outcome of the
    /// media type query, says text, and the opener for other content if
    /// not. Fails if the file holds text and no editor is configured. A
    /// child that is neither is left alone.
    pub fn open_child(
        &mut self,
        dir: &str,
        child: Probe,
        answer: Result<Vec<u8>, String>,
        editor: Option<String>,
    ) -> (r: Result<OpenAction, FmError>)
        ensures
            opened_view(r) == opening(
                joined_path(old(self).path@, dir@),
                child,
                answer,
                editor,
            ),
            child.kind == PathKind::Directory ==> final(self).path@ == child.resolved(
                joined_path(old(self).path@, dir@),
            ) && views(final(self).contents@) == child.listing(),
            child.kind != PathKind::Directory ==> *final(self) == *old(self),
    {
        match self.get_type_of_child(dir, &child) {
            Err(_) => Ok(OpenAction::Nothing),
            Ok(EntryType::Directory) => {
                let _ = self.change_dir(dir, child);
                Ok(OpenAction::Entered)
            },
            Ok(EntryType::File) => {
                let path = self.child_path(dir);
                if answer_is_text(answer) {
                    match editor {
                        Some(configured) => Ok(OpenAction::Edit { editor: configured, path }),
                        None => Err(FmError::ConfigMissing),
                    }
                } else {
                    Ok(OpenAction::Launch { path })
                }
            },
        }
    }

    /// Moves to the child `dir`, of which `target` is the examination.
    /// Where the child is missing or no directory, nothing changes and the
    /// error says which. Else the path becomes that of the child, in its
    /// canonical form where one was resolved, and the listing is read anew,
    /// with no entry marked.
    pub fn change_dir(&mut self, dir: &str, target: Probe) -> (r: Result<(), FmError>)
        ensures
            match target.kind {
                PathKind::Missing => r == Err::<(), FmError>(FmError::NotFound) && *final(self)
                    == *old(self),
                PathKind::Directory => {
                    &&& r is Ok
                    &&& final(self).path@ == target.resolved(joined_path(old(self).path@, dir@))
                    &&& views(final(self).contents@) == target.listing()
                },
                _ => r == Err::<(), FmError>(FmError::NotADirectory) && *final(self) == *old(self),
            },
    {
        match target.kind {
            PathKind::Missing => Err(FmError::NotFound),
            PathKind::Directory => {
                self.path = self.child_path(dir);
                self.canonicalize(target.canonical);
                self.set_contents(target.children);
                Ok(())
            },
            _ => Err(FmError::NotADirectory),
        }
    }

    /// Flips the mark of the entry named `name`; does nothing if there is
    /// none.
    pub fn toggle_highlight_of(&mut self, name: String)
        ensures
            final(self).path == old(self).path,
            views(final(self).contents@) == toggled(views(old(self).contents@), name@),
    {
        let n: usize = self.contents.len();
        let mut i: usize = 0;
        while i < n
            invariant
                i <= n,
                n == old(self).contents.len(),
                self.path == old(self).path,
                self.contents@.len() == n,
                forall|k: int|
                    0 <= k < i ==> (#[trigger] self.contents@[k])@ == toggled(
                        views(old(self).contents@),
                        name@,
                    )[k],
                forall|k: int| i <= k < n ==> self.contents@[k] == old(self).contents@[k],
            decreases n - i,
        {
            if self.contents[i].name == name {
                self.contents[i].highlighted = !self.contents[i].highlighted;
            }
            i = i + 1;
        }
    }

    /// A copy of the listing of the current directory.
    pub fn get_contents(&self) -> (r: Vec<Entry>)
        ensures
            r@ == self.contents@,
    {
        clone_entries(&self.contents)
    }

    /// Replaces the listing by that of `children`, or by an empty one where
    /// the directory could not be read.
    fn set_contents(&mut self, children: Option<Vec<(PathKind, String)>>)
        ensures
            final(self).path == old(self).path,
            views(final(self).contents@) == (match children {
                Some(raw) => unmarked(listing_of(raw@)),
                None => Seq::empty(),
            }),
    {
        match FileManager::get_contents_from_path(children) {
            Ok(v) => {
                self.contents = v;
            },
            Err(_) => {
                self.contents = Vec::new();
            },
        }
    }

    /// The listing of the child `dir`, of which `child` is the examination.
    /// Fails if the child is missing, is of unknown type, is a file, or
    /// could not be read. The current directory stays as it is.
    pub fn get_contents_of_child(&self, dir: &str, child: Probe) -> (r: Result<
        Vec<Entry>,
        FmError,
    >)
        ensures
            match r {
                Ok(v) => {
                    &&& child.kind == PathKind::Directory
                    &&& child.children matches Some(raw)
                    &&& views(v@) == unmarked(listing_of(raw@))
                },
                Err(e) => e == (match child.kind {
                    PathKind::Missing => FmError::NotFound,
                    PathKind::Other => FmError::TypeUnknown,
                    PathKind::File => FmError::EntryIsFile,
                    PathKind::Directory => FmError::Io,
                }) && !(child.kind == PathKind::Directory && child.children is Some),
            },
    {
        match self.get_type_of_child(dir, &child) {
            Err(e) => Err(e),
            Ok(EntryType::File) => Err(FmError::EntryIsFile),
            Ok(EntryType::Directory) => FileManager::get_contents_from_path(child.children),
        }
    }

    /// The path of the child `name` of the current directory: what the
    /// caller is to examine before it asks about that child. The parent
    /// directory is the child `..`.
    pub fn child_path(&self, name: &str) -> (r: String)
        ensures
            r@ == joined_path(self.path@, name@),
    {
        join_path(self.path.as_str(), name)
    }

    /// The current directory as a string.
    pub fn get_path_string(&self) -> (r: String)
        ensures
            r@ == self.path@,
    {
        self.path.clone()
    }

    /// The type of the child `dir`, of which `child` is the examination.
    /// Fails if it is missing, or neither file nor directory.
    pub fn get_type_of_child(&self, dir: &str, child: &Probe) -> (r: Result<EntryType, FmError>)
        ensures
            r == (match child.kind {
                PathKind::Missing => Err::<EntryType, FmError>(FmError::NotFound),
                PathKind::Directory => Ok(EntryType::Directory),
                PathKind::File => Ok(EntryType::File),
                PathKind::Other => Err(FmError::TypeUnknown),
            }),
    {
        match child.kind {
            PathKind::Missing => Err(FmError::NotFound),
            PathKind::Directory => Ok(EntryType::Directory),
            PathKind::File => Ok(EntryType::File),
            PathKind::Other => Err(FmError::TypeUnknown),
        }
    }

    /// The path of the child `dir`, of which `child` is the examination.
    /// Fails if it is missing.
    pub fn get_path_to_child(&self, dir: &str, child: &Probe) -> (r: Result<String, FmError>)
        ensures
            match r {
                Ok(p) => child.kind != PathKind::Missing && p@ == joined_path(self.path@, dir@),
                Err(e) => child.kind == PathKind::Missing && e == FmError::NotFound,
            },
    {
        match child.kind {
            PathKind::Missing => Err(FmError::NotFound),
            _ => Ok(self.child_path(dir)),
        }
    }

    /// Takes the canonical form of the path where one was resolved.
    fn canonicalize(&mut self, canonical: Option<String>)
        ensures
            final(self).contents == old(self).contents,
            final(self).path@ == (match canonical {
                Some(c) => c@,
                None => old(self).path@,
            }),
    {
        match canonical {
            Some(c) => {
                self.path = c;
            },
            None => {},
        }
    }
}

} // verus!
