//! The editor controller: its state (path, buffer, last error, theme), the
//! events that drive it, and the commands it asks the surrounding runtime to
//! perform.

use vstd::prelude::*;

use crate::buffer::{
    apply_edit, buf_of_text, buf_wf, empty_buf, lemma_apply_edit_wf, BufView, Buffer, EditAction,
};
use crate::text_ops::{join_lines, lemma_split_lines_len, lemma_split_lines_ok};

verus! {

/// A coarse classification of a failed file operation.
#[derive(Clone, Copy, Debug, PartialEq, Eq, Structural)]
pub enum IoErrorKind {
    NotFound,
    PermissionDenied,
    AlreadyExists,
    InvalidData,
    TimedOut,
    Interrupted,
    Unsupported,
    OutOfMemory,
    Other,
}

/// What a file or dialog operation can fail with: the user dismissed a
/// dialog, or the filesystem refused.
#[derive(Clone, Copy, Debug, PartialEq, Eq, Structural)]
pub enum EditorError {
    DialogClosed,
    IOFailed(IoErrorKind),
}

/// A syntax-highlighting theme the user can select.
#[derive(Clone, Copy, Debug, PartialEq, Eq, Structural)]
pub enum HighlightTheme {
    SolarizedDark,
    Base16Mocha,
    Base16Ocean,
    Base16Eighties,
    InspiredGitHub,
}

/// The light or dark appearance of the window, derived from the theme.
#[derive(Clone, Copy, Debug, PartialEq, Eq, Structural)]
pub enum WindowTheme {
    Dark,
    Light,
}

/// An event the controller reacts to: a user interaction or the completion
/// of an asynchronous file operation.
#[derive(Debug, PartialEq, Eq)]
pub enum Message {
    Edit(EditAction),
    New,
    Open,
    Save,
    ThemeSelected(HighlightTheme),
    FileOpened(Result<(String, String), EditorError>),
    FileSaved(Result<String, EditorError>),
}

/// An asynchronous operation the controller asks the runtime to perform.
#[derive(Debug, PartialEq, Eq)]
pub enum EditorCommand {
    /// Nothing to do.
    Nothing,
    /// Read the file at the given path.
    Load(String),
    /// Ask the user for a file and read it.
    PickAndLoad,
    /// Write the text to the given path, or to one the user picks when the
    /// path is absent.
    Save(Option<String>, String),
}

/// The mathematical value of an optional path.
pub open spec fn opt_str_view(p: Option<String>) -> Option<Seq<char>> {
    match p {
        Some(q) => Some(q@),
        None => None,
    }
}

/// The mathematical value of a command.
pub ghost enum CmdView {
    Nothing,
    Load(Seq<char>),
    PickAndLoad,
    Save(Option<Seq<char>>, Seq<char>),
}

impl View for EditorCommand {
    type V = CmdView;

    open spec fn view(&self) -> CmdView {
        match self {
            EditorCommand::Nothing => CmdView::Nothing,
            EditorCommand::Load(p) => CmdView::Load(p@),
            EditorCommand::PickAndLoad => CmdView::PickAndLoad,
            EditorCommand::Save(p, c) => CmdView::Save(opt_str_view(*p), c@),
        }
    }
}

/// The mathematical value of the controller state.
pub ghost struct StateView {
    pub path: Option<Seq<char>>,
    pub buffer: BufView,
    pub last_error: Option<EditorError>,
    pub theme: HighlightTheme,
}

/// A well-formed state: its buffer is well-formed.
pub open spec fn state_wf(s: StateView) -> bool {
    buf_wf(s.buffer)
}

/// The state the editor starts in.
pub open spec fn init_state() -> StateView {
    StateView {
        path: None,
        buffer: empty_buf(),
        last_error: None,
        theme: HighlightTheme::SolarizedDark,
    }
}

/// The state an event leaves behind. Every event is accepted; edit actions
/// clear a stale error; paths change only on a completed load or save.
pub open spec fn step(s: StateView, m: Message) -> StateView {
    match m {
        Message::Edit(a) => StateView {
            path: s.path,
            buffer: apply_edit(s.buffer, a),
            last_error: None,
            theme: s.theme,
        },
        Message::New => StateView {
            path: None,
            buffer: empty_buf(),
            last_error: s.last_error,
            theme: s.theme,
        },
        Message::Open => s,
        Message::Save => s,
        Message::ThemeSelected(t) => StateView {
            path: s.path,
            buffer: s.buffer,
            last_error: s.last_error,
            theme: t,
        },
        Message::FileOpened(r) => match r {
            Ok((p, c)) => StateView {
                path: Some(p@),
                buffer: buf_of_text(c@),
                last_error: s.last_error,
                theme: s.theme,
            },
            Err(e) => StateView {
                path: s.path,
                buffer: s.buffer,
                last_error: Some(e),
                theme: s.theme,
            },
        },
        Message::FileSaved(r) => match r {
            Ok(p) => StateView {
                path: Some(p@),
                buffer: s.buffer,
                last_error: s.last_error,
                theme: s.theme,
            },
            Err(e) => StateView {
                path: s.path,
                buffer: s.buffer,
                last_error: Some(e),
                theme: s.theme,
            },
        },
    }
}

/// The command an event makes the controller emit.
pub open spec fn emitted(s: StateView, m: Message) -> CmdView {
    match m {
        Message::Open => CmdView::PickAndLoad,
        Message::Save => CmdView::Save(s.path, join_lines(s.buffer.lines)),
        _ => CmdView::Nothing,
    }
}

/// A sequence of events, processed in order.
pub open spec fn run_events(s: StateView, ms: Seq<Message>) -> StateView
    decreases ms.len(),
{
    if ms.len() == 0 {
        s
    } else {
        run_events(step(s, ms[0]), ms.skip(1))
    }
}

/// Every event keeps the state well-formed.
pub proof fn lemma_step_wf(s: StateView, m: Message)
    requires
        state_wf(s),
    ensures
        state_wf(step(s, m)),
{
    match m {
        Message::Edit(a) => lemma_apply_edit_wf(s.buffer, a),
        Message::FileOpened(r) => match r {
            Ok((p, c)) => {
                lemma_split_lines_ok(c@);
                lemma_split_lines_len(c@);
            },
            Err(e) => {},
        },
        _ => {},
    }
}

impl HighlightTheme {
    /// Whether the theme is a dark one; only the light GitHub-inspired theme
    /// is not.
    pub fn is_dark(&self) -> (r: bool)
        ensures
            r == theme_is_dark(*self),
    {
        match self {
            HighlightTheme::InspiredGitHub => false,
            _ => true,
        }
    }
}

/// Whether a theme is dark.
pub open spec fn theme_is_dark(t: HighlightTheme) -> bool {
    t != HighlightTheme::InspiredGitHub
}

/// Every selectable theme, in the order the theme picker offers them.
pub fn all_themes() -> (r: Vec<HighlightTheme>)
    ensures
        r@ =~= seq![
            HighlightTheme::SolarizedDark,
            HighlightTheme::Base16Mocha,
            HighlightTheme::Base16Ocean,
            HighlightTheme::Base16Eighties,
            HighlightTheme::InspiredGitHub,
        ],
{
    let mut v: Vec<HighlightTheme> = Vec::new();
    v.push(HighlightTheme::SolarizedDark);
    v.push(HighlightTheme::Base16Mocha);
    v.push(HighlightTheme::Base16Ocean);
    v.push(HighlightTheme::Base16Eighties);
    v.push(HighlightTheme::InspiredGitHub);
    v
}

/// The editor controller's state.
pub struct EditorState {
    path: Option<String>,
    buffer: Buffer,
    last_error: Option<EditorError>,
    theme: HighlightTheme,
}

impl View for EditorState {
    type V = StateView;

    closed spec fn view(&self) -> StateView {
        StateView {
            path: opt_str_view(self.path),
            buffer: self.buffer@,
            last_error: self.last_error,
            theme: self.theme,
        }
    }
}

impl EditorState {
    /// A fresh editor, together with the startup command that loads the
    /// default file.
    pub fn new() -> (r: (EditorState, EditorCommand))
        ensures
            r.0@ == init_state(),
            state_wf(r.0@),
            r.1@ == CmdView::Load("src/main.rs"@),
    {
        let state = EditorState {
            path: None,
            buffer: Buffer::new(),
            last_error: None,
            theme: HighlightTheme::SolarizedDark,
        };
        (state, EditorCommand::Load(crate::default_file()))
    }

    /// React to one event: update the state and emit the command the event
    /// calls for.
    pub fn update(&mut self, m: Message) -> (cmd: EditorCommand)
        requires
            state_wf(old(self)@),
        ensures
            final(self)@ == step(old(self)@, m),
            state_wf(final(self)@),
            cmd@ == emitted(old(self)@, m),
    {
        proof {
            lemma_step_wf(old(self)@, m);
        }
        match m {
            Message::Edit(a) => {
                self.last_error = None;
                self.buffer.apply(a);
                EditorCommand::Nothing
            },
            Message::New => {
                self.path = None;
                self.buffer = Buffer::new();
                EditorCommand::Nothing
            },
            Message::Open => EditorCommand::PickAndLoad,
            Message::Save => {
                let path = match &self.path {
                    Some(q) => Some(q.clone()),
                    None => None,
                };
                let content = self.buffer.text();
                EditorCommand::Save(path, content)
            },
            Message::ThemeSelected(t) => {
                self.theme = t;
                EditorCommand::Nothing
            },
            Message::FileOpened(r) => {
                match r {
                    Ok((p, c)) => {
                        self.path = Some(p);
                        self.buffer = Buffer::from_text(c.as_str());
                    },
                    Err(e) => {
                        self.last_error = Some(e);
                    },
                }
                EditorCommand::Nothing
            },
            Message::FileSaved(r) => {
                match r {
                    Ok(p) => {
                        self.path = Some(p);
                    },
                    Err(e) => {
                        self.last_error = Some(e);
                    },
                }
                EditorCommand::Nothing
            },
        }
    }

    /// The current document path, if the document has ever been loaded from
    /// or saved to one.
    pub fn path(&self) -> (r: Option<String>)
        ensures
            opt_str_view(r) == self@.path,
    {
        match &self.path {
            Some(q) => Some(q.clone()),
            None => None,
        }
    }

    /// The error of the most recently failed operation, until the next edit.
    pub fn last_error(&self) -> (r: Option<EditorError>)
        ensures
            r == self@.last_error,
    {
        self.last_error
    }

    /// The selected highlighting theme.
    pub fn highlight_theme(&self) -> (r: HighlightTheme)
        ensures
            r == self@.theme,
    {
        self.theme
    }

    /// The text buffer.
    pub fn buffer(&self) -> (r: &Buffer)
        ensures
            r@ == self@.buffer,
    {
        &self.buffer
    }

    /// The window appearance the selected theme calls for.
    pub fn window_theme(&self) -> (r: WindowTheme)
        ensures
            r == (if theme_is_dark(self@.theme) {
                WindowTheme::Dark
            } else {
                WindowTheme::Light
            }),
    {
        if self.theme.is_dark() {
            WindowTheme::Dark
        } else {
            WindowTheme::Light
        }
    }
}

/// The mathematical value of a save or pick outcome.
pub open spec fn save_result_view(r: Result<String, EditorError>) -> Result<
    Seq<char>,
    EditorError,
> {
    match r {
        Ok(p) => Ok(p@),
        Err(e) => Err(e),
    }
}

/// Where a save goes: the current path when there is one, else the path the
/// user picked, else nowhere because the dialog was dismissed.
pub open spec fn spec_resolve_save(path: Option<Seq<char>>, picked: Option<Seq<char>>) -> Result<
    Seq<char>,
    EditorError,
> {
    match path {
        Some(p) => Ok(p),
        None => match picked {
            Some(q) => Ok(q),
            None => Err(EditorError::DialogClosed),
        },
    }
}

/// Resolve the destination of a save: keep the current path, or fall back to
/// what the save dialog returned; a dismissed dialog is the dialog-closed
/// error, never an I/O fault.
pub fn resolve_save_path(path: Option<String>, picked: Option<String>) -> (r: Result<
    String,
    EditorError,
>)
    ensures
        save_result_view(r) == spec_resolve_save(opt_str_view(path), opt_str_view(picked)),
{
    match path {
        Some(p) => Ok(p),
        None => match picked {
            Some(q) => Ok(q),
            None => Err(EditorError::DialogClosed),
        },
    }
}

/// What the open dialog's outcome means: a dismissed dialog is the
/// dialog-closed error, a chosen file is the path to load.
pub open spec fn spec_pick(picked: Option<Seq<char>>) -> Result<Seq<char>, EditorError> {
    match picked {
        Some(q) => Ok(q),
        None => Err(EditorError::DialogClosed),
    }
}

/// Turn the open dialog's outcome into the path to load, or the
/// dialog-closed error.
pub fn pick_outcome(picked: Option<String>) -> (r: Result<String, EditorError>)
    ensures
        save_result_view(r) == spec_pick(opt_str_view(picked)),
{
    match picked {
        Some(q) => Ok(q),
        None => Err(EditorError::DialogClosed),
    }
}

} // verus!
