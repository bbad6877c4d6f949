use dirbrowser::filemanager::{Entry, EntryType, FileManager, OpenAction, PathKind, Probe};
use dirbrowser::fmloop::{start_loop, turn, turn_for_key, Step};
use dirbrowser::state::{FmState, KeyPress, Request};
use termion::event::Key;

fn children(list: &[(PathKind, &str)]) -> Vec<(PathKind, String)> {
    list.iter().map(|(k, n)| (*k, n.to_string())).collect()
}

fn dir(canonical: &str, list: &[(PathKind, &str)]) -> Probe {
    Probe {
        kind: PathKind::Directory,
        canonical: Some(canonical.to_string()),
        children: Some(children(list)),
        text: None,
    }
}

fn file(text: Option<&str>) -> Probe {
    Probe {
        kind: PathKind::File,
        canonical: None,
        children: None,
        text: text.map(|t| t.to_string()),
    }
}

fn missing() -> Probe {
    Probe { kind: PathKind::Missing, canonical: None, children: None, text: None }
}

fn no_answer() -> Result<Vec<u8>, String> {
    Err("not asked".to_string())
}

fn browser(path: &str, list: &[(PathKind, &str)]) -> FmState {
    let mut state = FmState::new(FileManager::new(".", dir(path, list)));
    start_loop(&mut state);
    state
}

fn press(state: &mut FmState, c: char) -> OpenAction {
    state.handle_press(KeyPress::Char(c), None, no_answer(), None)
}

fn names(list: &[Entry]) -> Vec<&str> {
    list.iter().map(|e| e.name.as_str()).collect()
}

fn marks(list: &[Entry]) -> Vec<bool> {
    list.iter().map(|e| e.highlighted).collect()
}

fn shown_is_what_the_filter_left(state: &FmState) -> bool {
    match &state.fzf {
        Some(f) => f.get_remaining() == state.shown,
        None => state.fm.get_contents() == state.shown,
    }
}

const TMP_X: [(PathKind, &str); 2] = [(PathKind::Directory, "Docs"), (PathKind::File, "readme.txt")];

const PROJECT: [(PathKind, &str); 5] = [
    (PathKind::File, "main.rs"),
    (PathKind::Directory, "src"),
    (PathKind::File, "Makefile"),
    (PathKind::Directory, "target"),
    (PathKind::File, "notes.md"),
];

#[test]
fn a_new_state_shows_nothing_until_the_loop_starts() {
    let mut state = FmState::new(FileManager::new("/tmp/x", dir("/tmp/x", &TMP_X)));
    assert!(state.fzf.is_none());
    assert!(state.shown.is_empty());
    assert_eq!(state.cursor, 0);
    assert_eq!(state.get_selected(), None);
    start_loop(&mut state);
    assert!(state.fzf.is_some());
    assert_eq!(names(&state.shown), vec!["Docs", "readme.txt"]);
    assert_eq!(state.get_selected(), Some("Docs".to_string()));
}

#[test]
fn typing_d_keeps_every_name_that_holds_a_d() {
    let mut state = browser("/tmp/x", &TMP_X);
    press(&mut state, 'd');
    // `readme.txt` holds a `d` as well
    assert_eq!(names(&state.shown), vec!["Docs", "readme.txt"]);
    press(&mut state, 'o');
    assert_eq!(names(&state.shown), vec!["Docs"]);
}

#[test]
fn typing_narrows_and_confirm_descends() {
    let mut state = browser(
        "/tmp/x",
        &[(PathKind::Directory, "Docs"), (PathKind::File, "notes.txt")],
    );
    assert_eq!(press(&mut state, 'd'), OpenAction::Nothing);
    assert_eq!(names(&state.shown), vec!["Docs"]);
    assert_eq!(state.get_selected(), Some("Docs".to_string()));
    assert_eq!(
        state.request_for_press(KeyPress::Char('\n')),
        Request::Examine("/tmp/x/Docs".to_string())
    );
    let action = state.handle_press(
        KeyPress::Char('\n'),
        Some(dir(
            "/tmp/x/Docs",
            &[(PathKind::File, "b.txt"), (PathKind::Directory, "old"), (PathKind::File, "a.txt")],
        )),
        no_answer(),
        None,
    );
    assert_eq!(action, OpenAction::Entered);
    assert_eq!(state.fm.get_path_string(), "/tmp/x/Docs");
    assert_eq!(names(&state.shown), vec!["old", "a.txt", "b.txt"]);
    assert_eq!(state.fm.get_contents(), state.shown);
    // the filter starts anew: a `d` now finds `old` only
    press(&mut state, 'd');
    assert_eq!(names(&state.shown), vec!["old"]);
}

#[test]
fn going_up_from_the_root_changes_nothing() {
    let root = [(PathKind::Directory, "etc"), (PathKind::Directory, "usr")];
    let mut state = browser("/", &root);
    assert_eq!(state.request_for_press(KeyPress::Char('H')), Request::Examine("/..".to_string()));
    // the root is its own parent
    let action = state.handle_press(KeyPress::Char('H'), Some(dir("/", &root)), no_answer(), None);
    assert_eq!(action, OpenAction::Nothing);
    assert_eq!(state.fm.get_path_string(), "/");
    assert_eq!(names(&state.shown), vec!["etc", "usr"]);
}

#[test]
fn going_up_enters_the_parent_and_drops_the_filter() {
    let mut state = browser("/tmp/x/Docs", &[(PathKind::File, "a.txt")]);
    press(&mut state, 'z');
    assert!(state.shown.is_empty());
    state.handle_press(KeyPress::Char('H'), Some(dir("/tmp/x", &TMP_X)), no_answer(), None);
    assert_eq!(state.fm.get_path_string(), "/tmp/x");
    assert_eq!(names(&state.shown), vec!["Docs", "readme.txt"]);
}

#[test]
fn going_up_without_a_parent_reloads_in_place() {
    let mut state = browser("/tmp/x", &TMP_X);
    press(&mut state, 'o');
    assert_eq!(names(&state.shown), vec!["Docs"]);
    state.handle_press(KeyPress::Char('H'), Some(missing()), no_answer(), None);
    assert_eq!(state.fm.get_path_string(), "/tmp/x");
    assert_eq!(names(&state.shown), vec!["Docs", "readme.txt"]);
    press(&mut state, 'o');
    state.handle_press(KeyPress::Char('H'), None, no_answer(), None);
    assert_eq!(state.fm.get_path_string(), "/tmp/x");
    assert_eq!(names(&state.shown), vec!["Docs", "readme.txt"]);
}

#[test]
fn a_mark_outlives_the_filter() {
    let mut state = browser("/p", &PROJECT);
    assert_eq!(names(&state.shown), vec!["src", "target", "Makefile", "main.rs", "notes.md"]);
    press(&mut state, 'J');
    press(&mut state, 'J');
    assert_eq!(state.get_selected(), Some("Makefile".to_string()));
    press(&mut state, ' ');
    assert_eq!(marks(&state.shown), vec![false, false, true, false, false]);
    // filter it out
    press(&mut state, 'r');
    assert_eq!(names(&state.shown), vec!["src", "target", "main.rs"]);
    press(&mut state, 'q');
    assert!(state.shown.is_empty());
    // and back in
    state.handle_press(KeyPress::Esc, None, no_answer(), None);
    assert_eq!(names(&state.shown), vec!["src", "target", "Makefile", "main.rs", "notes.md"]);
    assert_eq!(marks(&state.shown), vec![false, false, true, false, false]);
    assert_eq!(state.fm.get_contents(), state.shown);
}

#[test]
fn a_mark_shows_while_the_filter_is_narrowed() {
    let mut state = browser("/p", &PROJECT);
    press(&mut state, 'm');
    press(&mut state, 'a');
    assert_eq!(names(&state.shown), vec!["Makefile", "main.rs"]);
    press(&mut state, 'J');
    press(&mut state, ' ');
    assert_eq!(names(&state.shown), vec!["Makefile", "main.rs"]);
    assert_eq!(marks(&state.shown), vec![false, true]);
    assert_eq!(state.cursor, 1);
    assert_eq!(marks(&state.fm.contents), vec![false, false, false, true, false]);
    // the mark stays on while the filter narrows on
    press(&mut state, 'i');
    assert_eq!(names(&state.shown), vec!["Makefile", "main.rs"]);
    assert_eq!(marks(&state.shown), vec![false, true]);
    press(&mut state, ' ');
    assert_eq!(marks(&state.shown), vec![false, false]);
    assert_eq!(marks(&state.fm.contents), vec![false; 5]);
}

#[test]
fn marking_flips_the_selected_row_among_names_that_differ_in_case() {
    let mut state = browser(
        "/p",
        &[(PathKind::File, "a"), (PathKind::File, "A"), (PathKind::File, "b")],
    );
    assert_eq!(names(&state.shown), vec!["A", "a", "b"]);
    press(&mut state, 'J');
    assert_eq!(state.get_selected(), Some("a".to_string()));
    press(&mut state, ' ');
    assert_eq!(names(&state.shown), vec!["A", "a", "b"]);
    assert_eq!(marks(&state.shown), vec![false, true, false]);
    assert_eq!(marks(&state.fm.contents), vec![false, true, false]);
    assert_eq!(state.cursor, 1);
    // both names stand under the key `a`
    press(&mut state, 'a');
    assert_eq!(names(&state.shown), vec!["A", "a"]);
    assert_eq!(marks(&state.shown), vec![false, true]);
    press(&mut state, 'K');
    press(&mut state, ' ');
    assert_eq!(marks(&state.shown), vec![true, true]);
    press(&mut state, 'J');
    press(&mut state, ' ');
    assert_eq!(names(&state.shown), vec!["A", "a"]);
    assert_eq!(marks(&state.shown), vec![true, false]);
    assert_eq!(marks(&state.fm.contents), vec![true, false, false]);
    state.handle_press(KeyPress::Esc, None, no_answer(), None);
    assert_eq!(names(&state.shown), vec!["A", "a", "b"]);
    assert_eq!(marks(&state.shown), vec![true, false, false]);
}

#[test]
fn marking_keeps_what_the_filter_has_found() {
    let mut state = browser("/p", &[(PathKind::File, "xay"), (PathKind::File, "ya")]);
    press(&mut state, 'a');
    press(&mut state, ' ');
    assert_eq!(marks(&state.shown), vec![true, false]);
    // the cursor of `ya` stands on its `a`: no `y` follows it
    press(&mut state, 'y');
    assert_eq!(names(&state.shown), vec!["xay"]);
    assert_eq!(marks(&state.shown), vec![true]);
}

#[test]
fn marking_in_an_empty_list_does_nothing() {
    let mut state = browser("/empty", &[]);
    press(&mut state, ' ');
    assert!(state.shown.is_empty());
    assert_eq!(state.cursor, 0);
}

#[test]
fn entering_a_directory_resets_the_marks() {
    let mut state = browser("/tmp/x", &TMP_X);
    press(&mut state, ' ');
    assert_eq!(marks(&state.shown), vec![true, false]);
    state.handle_press(KeyPress::Char('L'), Some(dir("/tmp/x/Docs", &TMP_X)), no_answer(), None);
    assert_eq!(names(&state.shown), vec!["Docs", "readme.txt"]);
    assert_eq!(marks(&state.shown), vec![false, false]);
}

#[test]
fn cursor_moves_clamp_at_both_ends() {
    let mut state = browser("/tmp/x", &TMP_X);
    press(&mut state, 'K');
    assert_eq!(state.cursor, 0);
    press(&mut state, 'J');
    assert_eq!(state.cursor, 1);
    assert_eq!(state.get_selected(), Some("readme.txt".to_string()));
    press(&mut state, 'J');
    assert_eq!(state.cursor, 1);
    state.prev();
    assert_eq!(state.cursor, 0);
    state.next();
    state.next();
    assert_eq!(state.cursor, 1);
}

#[test]
fn cursor_is_clamped_when_the_list_shrinks() {
    let mut state = browser("/p", &PROJECT);
    for _ in 0..4 {
        press(&mut state, 'J');
    }
    assert_eq!(state.cursor, 4);
    press(&mut state, 's');
    assert_eq!(names(&state.shown), vec!["src", "main.rs", "notes.md"]);
    assert_eq!(state.cursor, 2);
    assert_eq!(state.get_selected(), Some("notes.md".to_string()));
    press(&mut state, 'x');
    assert!(state.shown.is_empty());
    assert_eq!(state.cursor, 0);
    assert_eq!(state.get_selected(), None);
    press(&mut state, 'J');
    assert_eq!(state.cursor, 0);
}

#[test]
fn upper_case_letters_do_not_reach_the_filter() {
    let mut state = browser("/p", &PROJECT);
    press(&mut state, 'X');
    assert_eq!(state.shown.len(), 5);
    press(&mut state, 'M');
    assert_eq!(state.shown.len(), 5);
    press(&mut state, '\u{c9}');
    assert_eq!(state.shown.len(), 5);
    press(&mut state, 'x');
    assert!(state.shown.is_empty());
}

#[test]
fn names_are_found_by_their_lower_case_form() {
    let mut state = browser("/p", &PROJECT);
    press(&mut state, 'm');
    assert_eq!(names(&state.shown), vec!["Makefile", "main.rs", "notes.md"]);
    press(&mut state, 'k');
    assert_eq!(names(&state.shown), vec!["Makefile"]);
}

#[test]
fn typed_characters_must_appear_in_their_order() {
    let mut state =
        browser("/p", &[(PathKind::File, "ab"), (PathKind::File, "ba"), (PathKind::File, "bca")]);
    press(&mut state, 'b');
    assert_eq!(names(&state.shown), vec!["ab", "ba", "bca"]);
    press(&mut state, 'a');
    assert_eq!(names(&state.shown), vec!["ba", "bca"]);
    press(&mut state, 'c');
    assert!(state.shown.is_empty());
    state.handle_press(KeyPress::Esc, None, no_answer(), None);
    press(&mut state, 'b');
    press(&mut state, 'c');
    assert_eq!(names(&state.shown), vec!["bca"]);
}

#[test]
fn escape_brings_the_whole_listing_back() {
    let mut state = browser("/p", &PROJECT);
    press(&mut state, 'z');
    assert!(state.shown.is_empty());
    state.handle_press(KeyPress::Esc, None, no_answer(), None);
    assert_eq!(state.shown.len(), 5);
    assert_eq!(state.fm.get_path_string(), "/p");
}

#[test]
fn other_keys_change_nothing() {
    let mut state = browser("/p", &PROJECT);
    press(&mut state, 'm');
    press(&mut state, 'J');
    let shown = state.fm.get_contents();
    let action = state.handle_press(KeyPress::Other, Some(dir("/q", &TMP_X)), no_answer(), None);
    assert_eq!(action, OpenAction::Nothing);
    assert_eq!(names(&state.shown), vec!["Makefile", "main.rs", "notes.md"]);
    assert_eq!(state.cursor, 1);
    assert_eq!(state.fm.get_contents(), shown);
    assert_eq!(state.fm.get_path_string(), "/p");
}

#[test]
fn the_list_stays_in_step_with_the_filter() {
    let mut state = browser("/p", &PROJECT);
    for c in ['m', 'J', ' ', 'a', 'K', ' ', 'J', 'J', 'i', 'X', 'z', ' ', 'J'] {
        press(&mut state, c);
        assert!(shown_is_what_the_filter_left(&state));
        assert!(state.cursor == 0 || state.cursor < state.shown.len());
    }
    state.handle_press(KeyPress::Esc, None, no_answer(), None);
    assert!(shown_is_what_the_filter_left(&state));
    state.handle_press(KeyPress::Char('H'), Some(dir("/", &TMP_X)), no_answer(), None);
    assert!(shown_is_what_the_filter_left(&state));
    state.handle_press(KeyPress::Char('L'), Some(missing()), no_answer(), None);
    assert!(shown_is_what_the_filter_left(&state));
}

#[test]
fn opening_a_text_file_asks_for_the_editor() {
    let mut state = browser("/tmp/x", &TMP_X);
    press(&mut state, 'J');
    assert_eq!(
        state.request_for_press(KeyPress::Char('L')),
        Request::Examine("/tmp/x/readme.txt".to_string())
    );
    assert_eq!(state.selected_path(), Some("/tmp/x/readme.txt".to_string()));
    let action = state.handle_press(
        KeyPress::Char('L'),
        Some(file(Some("hello"))),
        Ok(b"text/plain\n".to_vec()),
        Some("nano".to_string()),
    );
    assert_eq!(
        action,
        OpenAction::Edit { editor: "nano".to_string(), path: "/tmp/x/readme.txt".to_string() }
    );
    assert_eq!(state.fm.get_path_string(), "/tmp/x");
    assert_eq!(names(&state.shown), vec!["Docs", "readme.txt"]);
}

#[test]
fn opening_other_content_asks_for_the_opener() {
    let mut state = browser("/tmp/x", &[(PathKind::File, "pic.png")]);
    let action = state.handle_press(
        KeyPress::Char('\n'),
        Some(file(None)),
        Ok(b"image/png\n".to_vec()),
        Some("nano".to_string()),
    );
    assert_eq!(action, OpenAction::Launch { path: "/tmp/x/pic.png".to_string() });
}

#[test]
fn opening_text_without_an_editor_does_nothing() {
    let mut state = browser("/tmp/x", &[(PathKind::File, "a.txt")]);
    press(&mut state, 'a');
    let action = state.handle_press(
        KeyPress::Char('L'),
        Some(file(Some("x"))),
        Ok(b"text/plain\n".to_vec()),
        None,
    );
    assert_eq!(action, OpenAction::Nothing);
    assert_eq!(state.fm.get_path_string(), "/tmp/x");
    assert_eq!(names(&state.shown), vec!["a.txt"]);
}

#[test]
fn opening_a_vanished_entry_only_reloads() {
    let mut state = browser("/tmp/x", &TMP_X);
    press(&mut state, 'o');
    assert_eq!(names(&state.shown), vec!["Docs"]);
    let action =
        state.handle_press(KeyPress::Char('L'), Some(missing()), no_answer(), None);
    assert_eq!(action, OpenAction::Nothing);
    assert_eq!(state.fm.get_path_string(), "/tmp/x");
    assert_eq!(names(&state.shown), vec!["Docs", "readme.txt"]);
}

#[test]
fn opening_with_nothing_selected_enters_nothing() {
    let mut state = browser("/tmp/x", &TMP_X);
    press(&mut state, 'z');
    assert_eq!(state.request_for_press(KeyPress::Char('L')), Request::Nothing);
    assert_eq!(state.selected_path(), None);
    let action =
        state.handle_press(KeyPress::Char('L'), Some(dir("/tmp/y", &PROJECT)), no_answer(), None);
    assert_eq!(action, OpenAction::Nothing);
    assert_eq!(state.fm.get_path_string(), "/tmp/x");
    assert_eq!(names(&state.shown), vec!["Docs", "readme.txt"]);
}

#[test]
fn only_open_and_go_up_ask_for_a_path() {
    let state = browser("/tmp/x", &TMP_X);
    for c in ['J', 'K', ' ', 'a', 'Q', 'h', 'l'] {
        assert_eq!(state.request_for_press(KeyPress::Char(c)), Request::Nothing);
    }
    assert_eq!(state.request_for_press(KeyPress::Esc), Request::Nothing);
    assert_eq!(state.request_for_press(KeyPress::Other), Request::Nothing);
    assert_eq!(state.request_for_key(Key::Char('H')), Request::Examine("/tmp/x/..".to_string()));
    assert_eq!(
        state.request_for_key(Key::Char('\n')),
        Request::Examine("/tmp/x/Docs".to_string())
    );
    assert_eq!(state.request_for_key(Key::Ctrl('H')), Request::Nothing);
    assert_eq!(state.request_for_key(Key::Up), Request::Nothing);
}

#[test]
fn preview_of_a_directory_lists_its_children() {
    let mut state = browser("/tmp/x", &TMP_X);
    state.show(Some(dir(
        "/tmp/x/Docs",
        &[
            (PathKind::File, "z"),
            (PathKind::Directory, "m"),
            (PathKind::Other, "pipe"),
            (PathKind::File, "a"),
        ],
    )));
    assert_eq!(
        state.preview,
        vec![
            Entry { kind: EntryType::Directory, name: "m".to_string(), highlighted: false },
            Entry { kind: EntryType::File, name: "a".to_string(), highlighted: false },
            Entry { kind: EntryType::File, name: "z".to_string(), highlighted: false },
        ]
    );
}

#[test]
fn preview_does_not_depend_on_the_filter() {
    let inside = [(PathKind::File, "zebra"), (PathKind::Directory, "ant"), (PathKind::File, "bee")];
    let mut plain = browser("/tmp/x", &TMP_X);
    plain.show(Some(dir("/tmp/x/Docs", &inside)));
    let mut narrowed = browser("/tmp/x", &TMP_X);
    press(&mut narrowed, 'o');
    press(&mut narrowed, 'c');
    assert_eq!(names(&narrowed.shown), vec!["Docs"]);
    narrowed.show(Some(dir("/tmp/x/Docs", &inside)));
    assert_eq!(names(&narrowed.preview), vec!["ant", "bee", "zebra"]);
    assert_eq!(plain.preview, narrowed.preview);
    assert_eq!(names(&narrowed.shown), vec!["Docs"]);
}

#[test]
fn preview_of_a_file_shows_its_lines() {
    let mut state = browser("/tmp/x", &TMP_X);
    press(&mut state, 'J');
    state.show(Some(file(Some("# Title\n\nbody\n"))));
    assert_eq!(names(&state.preview), vec!["# Title", "", "body", ""]);
    assert!(state.preview.iter().all(|e| e.kind == EntryType::File && !e.highlighted));
}

#[test]
fn preview_is_empty_where_nothing_can_be_read() {
    let mut state = browser("/tmp/x", &TMP_X);
    state.show(Some(file(Some("x"))));
    assert_eq!(state.preview.len(), 1);
    state.show(Some(file(None)));
    assert!(state.preview.is_empty());
    state.show(Some(file(Some("x"))));
    state.show(Some(missing()));
    assert!(state.preview.is_empty());
    state.show(Some(file(Some("x"))));
    state.show(None);
    assert!(state.preview.is_empty());
    state.show(Some(Probe {
        kind: PathKind::Directory,
        canonical: None,
        children: None,
        text: None,
    }));
    assert!(state.preview.is_empty());
}

#[test]
fn preview_is_empty_where_nothing_is_selected() {
    let mut state = browser("/tmp/x", &TMP_X);
    press(&mut state, 'z');
    state.show(Some(dir("/tmp/x/Docs", &PROJECT)));
    assert!(state.preview.is_empty());
}

#[test]
fn keys_of_the_terminal_are_read_as_key_presses() {
    let mut state = browser("/p", &PROJECT);
    state.handle_key(Key::Char('J'), None, no_answer(), None);
    assert_eq!(state.cursor, 1);
    state.handle_key(Key::Char('m'), None, no_answer(), None);
    assert_eq!(names(&state.shown), vec!["Makefile", "main.rs", "notes.md"]);
    state.handle_key(Key::Esc, None, no_answer(), None);
    assert_eq!(state.shown.len(), 5);
    // modified and special keys are no character keys
    state.handle_key(Key::Ctrl('m'), None, no_answer(), None);
    state.handle_key(Key::Alt('z'), None, no_answer(), None);
    state.handle_key(Key::Down, None, no_answer(), None);
    state.handle_key(Key::F(1), None, no_answer(), None);
    assert_eq!(state.shown.len(), 5);
    assert_eq!(state.cursor, 1);
}

#[test]
fn the_quit_key_ends_the_loop_and_touches_nothing() {
    let mut state = browser("/p", &PROJECT);
    press(&mut state, 'm');
    let before = names(&state.shown).iter().map(|n| n.to_string()).collect::<Vec<String>>();
    assert_eq!(turn(&mut state, KeyPress::Char('Q'), None, no_answer(), None), Step::Quit);
    assert_eq!(turn_for_key(&mut state, Key::Char('Q'), None, no_answer(), None), Step::Quit);
    assert_eq!(names(&state.shown), before);
    assert_eq!(state.cursor, 0);
}

#[test]
fn every_other_key_keeps_the_loop_going() {
    let mut state = browser("/tmp/x", &TMP_X);
    assert_eq!(
        turn(&mut state, KeyPress::Char('q'), None, no_answer(), None),
        Step::Continue(OpenAction::Nothing)
    );
    assert!(state.shown.is_empty());
    assert_eq!(
        turn(&mut state, KeyPress::Esc, None, no_answer(), None),
        Step::Continue(OpenAction::Nothing)
    );
    assert_eq!(
        turn_for_key(
            &mut state,
            Key::Char('L'),
            Some(dir("/tmp/x/Docs", &[])),
            no_answer(),
            None
        ),
        Step::Continue(OpenAction::Entered)
    );
    assert_eq!(state.fm.get_path_string(), "/tmp/x/Docs");
    assert_eq!(
        turn_for_key(&mut state, Key::Null, None, no_answer(), None),
        Step::Continue(OpenAction::Nothing)
    );
}
