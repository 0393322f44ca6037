use editor_core::buffer::EditAction;
use editor_core::default_file;
use editor_core::state::{
    all_themes, pick_outcome, resolve_save_path, EditorCommand, EditorError, EditorState,
    HighlightTheme, IoErrorKind, Message, WindowTheme,
};

#[test]
fn new_editor_loads_default_file() {
    let (ed, cmd) = EditorState::new();
    assert_eq!(ed.path(), None);
    assert_eq!(ed.last_error(), None);
    assert_eq!(ed.highlight_theme(), HighlightTheme::SolarizedDark);
    assert_eq!(ed.buffer().text(), "");
    assert_eq!(cmd, EditorCommand::Load(default_file()));
    assert_eq!(default_file(), "src/main.rs");
}

#[test]
fn edit_clears_previous_error() {
    let (mut ed, _) = EditorState::new();
    ed.update(Message::FileOpened(Err(EditorError::IOFailed(IoErrorKind::NotFound))));
    assert_eq!(ed.last_error(), Some(EditorError::IOFailed(IoErrorKind::NotFound)));
    let cmd = ed.update(Message::Edit(EditAction::Insert('x')));
    assert_eq!(cmd, EditorCommand::Nothing);
    assert_eq!(ed.last_error(), None);
    assert_eq!(ed.buffer().text(), "x");
}

#[test]
fn new_resets_path_and_buffer() {
    let (mut ed, _) = EditorState::new();
    ed.update(Message::FileOpened(Ok((
        String::from("/tmp/a.txt"),
        String::from("hello"),
    ))));
    ed.update(Message::Edit(EditAction::Insert('!')));
    ed.update(Message::New);
    assert_eq!(ed.path(), None);
    assert_eq!(ed.buffer().text(), "");
    assert_eq!(ed.buffer().cursor_position(), (0, 0));
}

#[test]
fn file_opened_sets_path_and_content_exactly() {
    let (mut ed, _) = EditorState::new();
    let cmd = ed.update(Message::FileOpened(Ok((
        String::from("/tmp/a.txt"),
        String::from("hello\nworld"),
    ))));
    assert_eq!(cmd, EditorCommand::Nothing);
    assert_eq!(ed.path(), Some(String::from("/tmp/a.txt")));
    assert_eq!(ed.buffer().text(), "hello\nworld");
    let save = ed.update(Message::Save);
    assert_eq!(
        save,
        EditorCommand::Save(Some(String::from("/tmp/a.txt")), String::from("hello\nworld"))
    );
}

#[test]
fn file_saved_populates_missing_path() {
    let (mut ed, _) = EditorState::new();
    assert_eq!(ed.path(), None);
    ed.update(Message::FileSaved(Ok(String::from("/x/y"))));
    assert_eq!(ed.path(), Some(String::from("/x/y")));
}

#[test]
fn cancelled_first_save_records_dialog_closed() {
    let (mut ed, _) = EditorState::new();
    let cmd = ed.update(Message::Save);
    assert_eq!(cmd, EditorCommand::Save(None, String::from("")));
    let resolved = resolve_save_path(None, None);
    assert_eq!(resolved, Err(EditorError::DialogClosed));
    ed.update(Message::FileSaved(Err(EditorError::DialogClosed)));
    assert_eq!(ed.last_error(), Some(EditorError::DialogClosed));
    assert_eq!(ed.path(), None);
    assert_eq!(ed.buffer().text(), "");
}

#[test]
fn first_save_through_dialog_writes_buffer() {
    let (mut ed, _) = EditorState::new();
    ed.update(Message::Edit(EditAction::Insert('h')));
    ed.update(Message::Edit(EditAction::Insert('i')));
    let cmd = ed.update(Message::Save);
    assert_eq!(cmd, EditorCommand::Save(None, String::from("hi")));
    let EditorCommand::Save(path, content) = cmd else {
        panic!("save event must emit a save command");
    };
    let resolved = resolve_save_path(path, Some(String::from("/tmp/x.txt")));
    assert_eq!(resolved, Ok(String::from("/tmp/x.txt")));
    assert_eq!(content, "hi");
    ed.update(Message::FileSaved(Ok(String::from("/tmp/x.txt"))));
    assert_eq!(ed.path(), Some(String::from("/tmp/x.txt")));
}

#[test]
fn failed_load_keeps_prior_state() {
    let (mut ed, _) = EditorState::new();
    ed.update(Message::FileOpened(Ok((
        String::from("/tmp/keep.txt"),
        String::from("kept"),
    ))));
    ed.update(Message::FileOpened(Err(EditorError::IOFailed(IoErrorKind::NotFound))));
    assert_eq!(ed.last_error(), Some(EditorError::IOFailed(IoErrorKind::NotFound)));
    assert_eq!(ed.path(), Some(String::from("/tmp/keep.txt")));
    assert_eq!(ed.buffer().text(), "kept");
}

#[test]
fn open_emits_pick_and_load() {
    let (mut ed, _) = EditorState::new();
    let cmd = ed.update(Message::Open);
    assert_eq!(cmd, EditorCommand::PickAndLoad);
    assert_eq!(ed.path(), None);
    assert_eq!(ed.buffer().text(), "");
}

#[test]
fn save_with_path_keeps_it() {
    let resolved = resolve_save_path(
        Some(String::from("/tmp/current.txt")),
        Some(String::from("/tmp/other.txt")),
    );
    assert_eq!(resolved, Ok(String::from("/tmp/current.txt")));
}

#[test]
fn pick_outcome_maps_dialog_result() {
    assert_eq!(
        pick_outcome(Some(String::from("/tmp/p.rs"))),
        Ok(String::from("/tmp/p.rs"))
    );
    assert_eq!(pick_outcome(None), Err(EditorError::DialogClosed));
}

#[test]
fn theme_selection_drives_window_theme() {
    let (mut ed, _) = EditorState::new();
    assert_eq!(ed.window_theme(), WindowTheme::Dark);
    ed.update(Message::ThemeSelected(HighlightTheme::InspiredGitHub));
    assert_eq!(ed.highlight_theme(), HighlightTheme::InspiredGitHub);
    assert_eq!(ed.window_theme(), WindowTheme::Light);
    ed.update(Message::ThemeSelected(HighlightTheme::Base16Ocean));
    assert_eq!(ed.window_theme(), WindowTheme::Dark);
}

#[test]
fn all_themes_lists_every_choice() {
    let themes = all_themes();
    assert_eq!(
        themes,
        vec![
            HighlightTheme::SolarizedDark,
            HighlightTheme::Base16Mocha,
            HighlightTheme::Base16Ocean,
            HighlightTheme::Base16Eighties,
            HighlightTheme::InspiredGitHub,
        ]
    );
    assert!(themes[0].is_dark());
    assert!(!themes[4].is_dark());
}
