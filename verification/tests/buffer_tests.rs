use editor_core::buffer::{Buffer, EditAction, Motion};

fn apply_all(b: &mut Buffer, actions: Vec<EditAction>) {
    for a in actions {
        b.apply(a);
    }
}

#[test]
fn insert_advances_cursor() {
    let mut b = Buffer::new();
    apply_all(&mut b, vec![EditAction::Insert('h'), EditAction::Insert('i')]);
    assert_eq!(b.cursor_position(), (0, 2));
    assert_eq!(b.text(), "hi");
}

#[test]
fn enter_splits_line() {
    let mut b = Buffer::new();
    apply_all(
        &mut b,
        vec![
            EditAction::Insert('a'),
            EditAction::Insert('b'),
            EditAction::Move(Motion::Left),
            EditAction::Enter,
        ],
    );
    assert_eq!(b.text(), "a\nb");
    assert_eq!(b.cursor_position(), (1, 0));
}

#[test]
fn newline_character_breaks_line() {
    let mut b = Buffer::new();
    apply_all(&mut b, vec![EditAction::Insert('a'), EditAction::Insert('\n')]);
    assert_eq!(b.text(), "a\n");
    assert_eq!(b.cursor_position(), (1, 0));
}

#[test]
fn backspace_removes_and_joins() {
    let mut b = Buffer::new();
    apply_all(
        &mut b,
        vec![EditAction::Paste(String::from("ab\ncd")), EditAction::Move(Motion::Home)],
    );
    assert_eq!(b.cursor_position(), (1, 0));
    b.apply(EditAction::Backspace);
    assert_eq!(b.text(), "abcd");
    assert_eq!(b.cursor_position(), (0, 2));
    b.apply(EditAction::Backspace);
    assert_eq!(b.text(), "acd");
    assert_eq!(b.cursor_position(), (0, 1));
}

#[test]
fn backspace_at_origin_does_nothing() {
    let mut b = Buffer::new();
    b.apply(EditAction::Backspace);
    assert_eq!(b.text(), "");
    assert_eq!(b.cursor_position(), (0, 0));
}

#[test]
fn delete_removes_and_joins() {
    let mut b = Buffer::new();
    apply_all(
        &mut b,
        vec![EditAction::Paste(String::from("ab\ncd")), EditAction::Move(Motion::DocumentStart)],
    );
    b.apply(EditAction::Delete);
    assert_eq!(b.text(), "b\ncd");
    b.apply(EditAction::Delete);
    assert_eq!(b.text(), "\ncd");
    b.apply(EditAction::Delete);
    assert_eq!(b.text(), "cd");
    assert_eq!(b.cursor_position(), (0, 0));
}

#[test]
fn paste_lands_after_inserted_text() {
    let mut b = Buffer::new();
    b.apply(EditAction::Paste(String::from("one\ntwo")));
    assert_eq!(b.text(), "one\ntwo");
    assert_eq!(b.cursor_position(), (1, 3));
}

#[test]
fn motions_stop_at_edges() {
    let mut b = Buffer::new();
    apply_all(&mut b, vec![EditAction::Move(Motion::Left), EditAction::Move(Motion::Up)]);
    assert_eq!(b.cursor_position(), (0, 0));
    b.apply(EditAction::Paste(String::from("long line\nx")));
    apply_all(
        &mut b,
        vec![EditAction::Move(Motion::Up), EditAction::Move(Motion::End)],
    );
    assert_eq!(b.cursor_position(), (0, 9));
    b.apply(EditAction::Move(Motion::Down));
    assert_eq!(b.cursor_position(), (1, 1));
    b.apply(EditAction::Move(Motion::DocumentEnd));
    assert_eq!(b.cursor_position(), (1, 1));
    b.apply(EditAction::Move(Motion::DocumentStart));
    assert_eq!(b.cursor_position(), (0, 0));
    b.apply(EditAction::Move(Motion::Right));
    assert_eq!(b.cursor_position(), (0, 1));
}

#[test]
fn left_and_right_cross_line_ends() {
    let mut b = Buffer::new();
    apply_all(
        &mut b,
        vec![EditAction::Paste(String::from("a\nb")), EditAction::Move(Motion::Home)],
    );
    b.apply(EditAction::Move(Motion::Left));
    assert_eq!(b.cursor_position(), (0, 1));
    b.apply(EditAction::Move(Motion::Right));
    assert_eq!(b.cursor_position(), (1, 0));
}

#[test]
fn from_text_round_trips() {
    let b = Buffer::from_text("alpha\nbeta\n");
    assert_eq!(b.text(), "alpha\nbeta\n");
    assert_eq!(b.cursor_position(), (0, 0));
    let e = Buffer::from_text("");
    assert_eq!(e.text(), "");
}
