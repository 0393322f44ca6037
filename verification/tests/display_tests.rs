use editor_core::buffer::EditAction;
use editor_core::display::{highlight_extension, position_text, title};
use editor_core::state::{EditorError, EditorState, IoErrorKind, Message};

#[test]
fn window_title() {
    assert_eq!(title(), "Dimingo's Editor");
}

#[test]
fn status_shows_placeholder_then_path() {
    let (mut ed, _) = EditorState::new();
    assert_eq!(ed.status_text(), "New File");
    ed.update(Message::FileOpened(Ok((
        String::from("/tmp/a.txt"),
        String::from("x"),
    ))));
    assert_eq!(ed.status_text(), "/tmp/a.txt");
}

#[test]
fn status_shows_io_failure_until_next_edit() {
    let (mut ed, _) = EditorState::new();
    ed.update(Message::FileOpened(Err(EditorError::IOFailed(IoErrorKind::NotFound))));
    assert_eq!(ed.status_text(), "file not found");
    ed.update(Message::Edit(EditAction::Insert('a')));
    assert_eq!(ed.status_text(), "New File");
}

#[test]
fn status_treats_dismissed_dialog_neutrally() {
    let (mut ed, _) = EditorState::new();
    ed.update(Message::FileSaved(Err(EditorError::DialogClosed)));
    assert_eq!(ed.status_text(), "New File");
}

#[test]
fn io_failure_descriptions() {
    assert_eq!(IoErrorKind::NotFound.describe(), "file not found");
    assert_eq!(IoErrorKind::PermissionDenied.describe(), "permission denied");
    assert_eq!(IoErrorKind::AlreadyExists.describe(), "file already exists");
    assert_eq!(IoErrorKind::InvalidData.describe(), "invalid file contents");
    assert_eq!(IoErrorKind::TimedOut.describe(), "operation timed out");
    assert_eq!(IoErrorKind::Interrupted.describe(), "operation interrupted");
    assert_eq!(IoErrorKind::Unsupported.describe(), "operation not supported");
    assert_eq!(IoErrorKind::OutOfMemory.describe(), "out of memory");
    assert_eq!(IoErrorKind::Other.describe(), "input/output error");
}

#[test]
fn cursor_text_is_one_based() {
    let (mut ed, _) = EditorState::new();
    assert_eq!(ed.cursor_text(), "1:1");
    ed.update(Message::Edit(EditAction::Paste(String::from("line one\nmore"))));
    assert_eq!(ed.cursor_text(), "2:5");
}

#[test]
fn position_text_renders_decimals() {
    assert_eq!(position_text(0, 0), "1:1");
    assert_eq!(position_text(9, 41), "10:42");
    assert_eq!(position_text(99, 100), "100:101");
}

#[test]
fn extension_of_paths() {
    assert_eq!(highlight_extension(&None), "rs");
    assert_eq!(highlight_extension(&Some(String::from("a/b.py"))), "py");
    assert_eq!(highlight_extension(&Some(String::from("x.tar.gz"))), "gz");
    assert_eq!(highlight_extension(&Some(String::from("/p/noext"))), "rs");
    assert_eq!(highlight_extension(&Some(String::from(".bashrc"))), "rs");
    assert_eq!(highlight_extension(&Some(String::from("dir.d/file"))), "rs");
    assert_eq!(highlight_extension(&Some(String::from("trailing."))), "");
    assert_eq!(highlight_extension(&Some(String::from("src/main.rs"))), "rs");
}
