//! Read-only projections of the editor state for rendering: the window
//! title, the status bar, the cursor position, and the file extension that
//! keys syntax highlighting.

use vstd::prelude::*;

use crate::buffer::BufView;
use crate::state::{opt_str_view, EditorError, EditorState, IoErrorKind, StateView};
use crate::text_ops::{chars_range, chars_to_string, dec_chars, dec_chars_exec, str_to_chars};

verus! {

/// The window title.
pub fn title() -> (r: String)
    ensures
        r@ == "Dimingo's Editor"@,
{
    String::from_str("Dimingo's Editor")
}

/// The status-bar description of a failed file operation.
pub open spec fn kind_text(k: IoErrorKind) -> Seq<char> {
    match k {
        IoErrorKind::NotFound => "file not found"@,
        IoErrorKind::PermissionDenied => "permission denied"@,
        IoErrorKind::AlreadyExists => "file already exists"@,
        IoErrorKind::InvalidData => "invalid file contents"@,
        IoErrorKind::TimedOut => "operation timed out"@,
        IoErrorKind::Interrupted => "operation interrupted"@,
        IoErrorKind::Unsupported => "operation not supported"@,
        IoErrorKind::OutOfMemory => "out of memory"@,
        IoErrorKind::Other => "input/output error"@,
    }
}

impl IoErrorKind {
    /// The status-bar description of this failure.
    pub fn describe(&self) -> (r: String)
        ensures
            r@ == kind_text(*self),
    {
        match self {
            IoErrorKind::NotFound => String::from_str("file not found"),
            IoErrorKind::PermissionDenied => String::from_str("permission denied"),
            IoErrorKind::AlreadyExists => String::from_str("file already exists"),
            IoErrorKind::InvalidData => String::from_str("invalid file contents"),
            IoErrorKind::TimedOut => String::from_str("operation timed out"),
            IoErrorKind::Interrupted => String::from_str("operation interrupted"),
            IoErrorKind::Unsupported => String::from_str("operation not supported"),
            IoErrorKind::OutOfMemory => String::from_str("out of memory"),
            IoErrorKind::Other => String::from_str("input/output error"),
        }
    }
}

/// What the status bar shows: a failed operation's description, else the
/// document path, else the new-file placeholder. A dismissed dialog is not
/// rendered as a fault.
pub open spec fn status_view(s: StateView) -> Seq<char> {
    match s.last_error {
        Some(EditorError::IOFailed(k)) => kind_text(k),
        _ => match s.path {
            Some(p) => p,
            None => "New File"@,
        },
    }
}

/// The one-based `line:column` rendering of the cursor position.
pub open spec fn position_view(b: BufView) -> Seq<char> {
    dec_chars(b.line + 1) + seq![':'] + dec_chars(b.col + 1)
}

/// The `line:column` text for a zero-based cursor position, one-based for
/// display.
pub fn position_text(line: usize, col: usize) -> (r: String)
    ensures
        r@ == dec_chars(line as nat + 1) + seq![':'] + dec_chars(col as nat + 1),
{
    let mut out = dec_chars_exec(line as u128 + 1);
    out.push(':');
    let mut tail = dec_chars_exec(col as u128 + 1);
    out.append(&mut tail);
    proof {
        assert(out@ =~= dec_chars(line as nat + 1) + seq![':'] + dec_chars(col as nat + 1));
    }
    chars_to_string(&out)
}

impl EditorState {
    /// The status bar's text.
    pub fn status_text(&self) -> (r: String)
        ensures
            r@ == status_view(self@),
    {
        match self.last_error() {
            Some(EditorError::IOFailed(k)) => k.describe(),
            _ => match self.path() {
                Some(p) => p,
                None => String::from_str("New File"),
            },
        }
    }

    /// The cursor position text, one-based for display.
    pub fn cursor_text(&self) -> (r: String)
        ensures
            r@ == position_view(self@.buffer),
    {
        let pos = self.buffer().cursor_position();
        position_text(pos.0, pos.1)
    }
}

/// The file name of a path: everything after the last slash, or the whole
/// path when it has none. Paths are modelled as plain slash-separated text.
pub open spec fn file_name_of(s: Seq<char>) -> Seq<char>
    decreases s.len(),
{
    if s.len() == 0 {
        s
    } else if s.last() == '/' {
        Seq::<char>::empty()
    } else {
        file_name_of(s.drop_last()).push(s.last())
    }
}

/// The extension of a file name: what follows its last dot, where a dot as
/// the very first character marks a hidden file, not an extension.
pub open spec fn ext_of_name(n: Seq<char>) -> Option<Seq<char>>
    decreases n.len(),
{
    if n.len() <= 1 {
        None
    } else if n.last() == '.' {
        Some(Seq::<char>::empty())
    } else {
        match ext_of_name(n.drop_last()) {
            Some(e) => Some(e.push(n.last())),
            None => None,
        }
    }
}

/// The extension that keys syntax highlighting: the path's extension, with
/// Rust as the fallback when there is no path or no extension.
pub open spec fn highlight_ext_view(p: Option<Seq<char>>) -> Seq<char> {
    match p {
        None => "rs"@,
        Some(s) => match ext_of_name(file_name_of(s)) {
            Some(e) => e,
            None => "rs"@,
        },
    }
}

/// Extending a partial extension with the characters not yet scanned.
spec fn ext_extend(e: Option<Seq<char>>, suffix: Seq<char>) -> Option<Seq<char>> {
    match e {
        Some(x) => Some(x + suffix),
        None => None,
    }
}

proof fn lemma_name_step(s: Seq<char>, i: int)
    requires
        1 <= i <= s.len(),
        s[i - 1] != '/',
    ensures
        file_name_of(s.take(i)) + s.skip(i) == file_name_of(s.take(i - 1)) + s.skip(i - 1),
{
    assert(s.take(i).drop_last() =~= s.take(i - 1));
    assert(s.take(i).last() == s[i - 1]);
    assert(file_name_of(s.take(i - 1)).push(s[i - 1]) + s.skip(i) =~= file_name_of(
        s.take(i - 1),
    ) + s.skip(i - 1));
}

proof fn lemma_ext_step(name: Seq<char>, k: int)
    requires
        1 <= k <= name.len(),
        name[k - 1] != '.',
    ensures
        ext_extend(ext_of_name(name.take(k)), name.skip(k)) == ext_extend(
            ext_of_name(name.take(k - 1)),
            name.skip(k - 1),
        ),
{
    assert(name.take(k).drop_last() =~= name.take(k - 1));
    if k >= 2 {
        assert(name.take(k).last() == name[k - 1]);
        match ext_of_name(name.take(k - 1)) {
            Some(e) => {
                assert(e.push(name[k - 1]) + name.skip(k) =~= e + name.skip(k - 1));
            },
            None => {},
        }
    } else {
        assert(name.take(1).len() == 1);
        assert(name.take(0).len() == 0);
    }
}

/// The extension the highlighter is keyed by, from the document path;
/// without a path or an extension it falls back to Rust.
pub fn highlight_extension(path: &Option<String>) -> (r: String)
    ensures
        r@ == highlight_ext_view(opt_str_view(*path)),
{
    match path {
        None => String::from_str("rs"),
        Some(p) => {
            let cs = str_to_chars(p.as_str());
            let n = cs.len();
            let mut i: usize = n;
            proof {
                assert(p@.take(n as int) =~= p@);
                assert(p@.skip(n as int) =~= Seq::<char>::empty());
                assert(file_name_of(p@) + p@.skip(n as int) =~= file_name_of(p@));
            }
            while i > 0 && cs[i - 1] != '/'
                invariant
                    i <= n,
                    n == cs@.len(),
                    cs@ == p@,
                    file_name_of(p@) == file_name_of(p@.take(i as int)) + p@.skip(i as int),
                decreases i,
            {
                proof {
                    lemma_name_step(p@, i as int);
                }
                i = i - 1;
            }
            let st = i;
            let ghost name = p@.skip(st as int);
            proof {
                if st > 0 {
                    assert(p@.take(st as int).last() == p@[st as int - 1]);
                    assert(file_name_of(p@.take(st as int)) == Seq::<char>::empty());
                } else {
                    assert(p@.take(0) =~= Seq::<char>::empty());
                }
                assert(Seq::<char>::empty() + name =~= name);
                assert(file_name_of(p@) == name);
            }
            let mut j: usize = n;
            proof {
                assert(name.take((n - st) as int) =~= name);
                assert(name.skip((n - st) as int) =~= Seq::<char>::empty());
                match ext_of_name(name) {
                    Some(e) => {
                        assert(e + Seq::<char>::empty() =~= e);
                    },
                    None => {},
                }
                assert(ext_extend(ext_of_name(name.take((n - st) as int)), name.skip(
                    (n - st) as int,
                )) == ext_of_name(name));
            }
            while j > st && cs[j - 1] != '.'
                invariant
                    st <= j <= n,
                    n == cs@.len(),
                    cs@ == p@,
                    name == p@.skip(st as int),
                    ext_of_name(name) == ext_extend(
                        ext_of_name(name.take((j - st) as int)),
                        name.skip((j - st) as int),
                    ),
                decreases j,
            {
                proof {
                    assert(name[(j - st) as int - 1] == p@[j as int - 1]);
                    lemma_ext_step(name, (j - st) as int);
                }
                j = j - 1;
            }
            if j == st {
                proof {
                    assert(name.take(0).len() == 0);
                    assert(ext_of_name(name) is None);
                }
                String::from_str("rs")
            } else if j - 1 == st {
                proof {
                    assert(name.take(1).len() == 1);
                    assert(ext_of_name(name) is None);
                }
                String::from_str("rs")
            } else {
                let out = chars_range(&cs, j, n);
                proof {
                    let k = (j - st) as int;
                    assert(name.take(k).len() == k);
                    assert(name.take(k).last() == name[k - 1]);
                    assert(name[k - 1] == p@[j as int - 1]);
                    assert(ext_of_name(name.take(k)) == Some(Seq::<char>::empty()));
                    assert(Seq::<char>::empty() + name.skip(k) =~= name.skip(k));
                    assert(ext_of_name(name) == Some(name.skip(k)));
                    assert(name.skip(k) =~= p@.skip(j as int));
                    assert(out@ =~= p@.skip(j as int));
                }
                chars_to_string(&out)
            }
        },
    }
}

} // verus!
