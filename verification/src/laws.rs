//! The behavioural laws of the controller, stated and proved over the state
//! machine's own specification.

use vstd::prelude::*;

use crate::buffer::{apply_edit, apply_edits, empty_buf, EditAction};
use crate::state::{
    emitted, init_state, run_events, spec_resolve_save, step, CmdView, EditorError, Message,
    StateView,
};
use crate::text_ops::{join_lines, lemma_join_split};

verus! {

/// Edit events reach the buffer in order: processing a sequence of edit
/// actions, each wrapped as an event, leaves the buffer (text and cursor
/// alike) exactly as applying the actions one after another leaves it; no
/// action is dropped or reordered.
pub proof fn lemma_edits_in_order(s: StateView, actions: Seq<EditAction>)
    ensures
        run_events(s, actions.map_values(|a: EditAction| Message::Edit(a))).buffer == apply_edits(
            s.buffer,
            actions,
        ),
    decreases actions.len(),
{
    let ms = actions.map_values(|a: EditAction| Message::Edit(a));
    if actions.len() > 0 {
        assert(ms[0] == Message::Edit(actions[0]));
        assert(ms.skip(1) =~= actions.skip(1).map_values(|a: EditAction| Message::Edit(a)));
        lemma_edits_in_order(step(s, ms[0]), actions.skip(1));
        assert(step(s, ms[0]).buffer == apply_edit(s.buffer, actions[0]));
    }
}

/// From a fresh editor, the buffer after a sequence of edit events is what
/// applying those actions in order to the empty buffer gives.
pub proof fn lemma_edits_from_start(actions: Seq<EditAction>)
    ensures
        run_events(init_state(), actions.map_values(|a: EditAction| Message::Edit(a))).buffer
            == apply_edits(empty_buf(), actions),
{
    lemma_edits_in_order(init_state(), actions);
}

/// Any edit event clears a previously set error unconditionally: right
/// after an edit, no error is recorded, whatever was before.
pub proof fn lemma_edit_clears_error(s: StateView, a: EditAction)
    ensures
        step(s, Message::Edit(a)).last_error is None,
{
}

/// The new-file event always resets the path and empties the buffer,
/// whatever the prior state held — an error or unsaved edits included.
pub proof fn lemma_new_resets(s: StateView)
    ensures
        step(s, Message::New).path is None,
        step(s, Message::New).buffer == empty_buf(),
{
}

/// A completed load replaces path and buffer with exactly what was read,
/// and saving that buffer unmodified emits the identical content back to
/// the same path.
pub proof fn lemma_open_round_trip(s: StateView, p: String, c: String)
    ensures
        step(s, Message::FileOpened(Ok((p, c)))).path == Some(p@),
        join_lines(step(s, Message::FileOpened(Ok((p, c)))).buffer.lines) == c@,
        emitted(step(s, Message::FileOpened(Ok((p, c)))), Message::Save) == CmdView::Save(
            Some(p@),
            c@,
        ),
{
    lemma_join_split(c@);
}

/// A completed save records the path it went to, also when no path was set
/// before: the first save populates the path for the saves after it.
pub proof fn lemma_saved_sets_path(s: StateView, p: String)
    ensures
        step(s, Message::FileSaved(Ok(p))).path == Some(p@),
{
}

/// A first save whose destination dialog the user dismisses: the emitted
/// save command carries no path, resolving that against the dismissed
/// dialog is the dialog-closed error — never an I/O fault — and recording
/// the failure leaves path and buffer exactly as they were.
pub proof fn lemma_first_save_cancelled(s: StateView)
    requires
        s.path is None,
    ensures
        emitted(s, Message::Save) == CmdView::Save(None, join_lines(s.buffer.lines)),
        spec_resolve_save(s.path, None) == Err::<Seq<char>, EditorError>(
            EditorError::DialogClosed,
        ),
        step(step(s, Message::Save), Message::FileSaved(Err(EditorError::DialogClosed)))
            == (StateView {
            path: s.path,
            buffer: s.buffer,
            last_error: Some(EditorError::DialogClosed),
            theme: s.theme,
        }),
{
}

/// The path is never set pre-emptively: only a completed load or save, or
/// the new-file reset, ever changes it. Issuing an open or save command
/// leaves it untouched.
pub proof fn lemma_path_set_only_by_completion(s: StateView, m: Message)
    ensures
        step(s, m).path != s.path ==> (m is New || m is FileOpened || m is FileSaved),
{
}

/// A failed load records the error and leaves the path and buffer exactly
/// as they were before the attempt.
pub proof fn lemma_failed_open_keeps_state(s: StateView, e: EditorError)
    ensures
        step(s, Message::FileOpened(Err(e))).path == s.path,
        step(s, Message::FileOpened(Err(e))).buffer == s.buffer,
        step(s, Message::FileOpened(Err(e))).last_error == Some(e),
{
}

} // verus!
