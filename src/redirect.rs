use vstd::prelude::*;

use crate::error::ShellError;
use crate::structures::{RedirectIn, RedirectOut, Str};

verus! {

/// Permission bits of files that redirections create: owner read and
/// write, group and others read.
pub const CREATE_PERMISSIONS: u32 = 0o644;

/// How a redirection opens its target.
#[derive(Clone, Copy, Debug, PartialEq, Eq, Structural)]
pub enum OpenMode {
    /// Read only; the file must exist.
    Read,
    /// Write to a new file; fails if the file exists.
    CreateExclusive,
    /// Write from the start, creating or emptying the file.
    CreateTruncate,
    /// Write at the end, creating the file if needed.
    CreateAppend,
}

/// The open(2) flags a mode stands for.
#[derive(Clone, Copy, Debug, PartialEq, Eq, Structural)]
pub struct OpenFlags {
    /// O_WRONLY; read only (O_RDONLY) when false.
    pub write: bool,
    /// O_CREAT.
    pub create: bool,
    /// O_EXCL.
    pub exclusive: bool,
    /// O_TRUNC.
    pub truncate: bool,
    /// O_APPEND.
    pub append: bool,
}

pub open spec fn flags_of(mode: OpenMode) -> OpenFlags {
    match mode {
        OpenMode::Read => OpenFlags {
            write: false,
            create: false,
            exclusive: false,
            truncate: false,
            append: false,
        },
        OpenMode::CreateExclusive => OpenFlags {
            write: true,
            create: true,
            exclusive: true,
            truncate: false,
            append: false,
        },
        OpenMode::CreateTruncate => OpenFlags {
            write: true,
            create: true,
            exclusive: false,
            truncate: true,
            append: false,
        },
        OpenMode::CreateAppend => OpenFlags {
            write: true,
            create: true,
            exclusive: false,
            truncate: false,
            append: true,
        },
    }
}

impl OpenMode {
    /// The open(2) flags of this mode.
    pub fn flags(&self) -> (r: OpenFlags)
        ensures
            r == flags_of(*self),
    {
        match self {
            OpenMode::Read => OpenFlags {
                write: false,
                create: false,
                exclusive: false,
                truncate: false,
                append: false,
            },
            OpenMode::CreateExclusive => OpenFlags {
                write: true,
                create: true,
                exclusive: true,
                truncate: false,
                append: false,
            },
            OpenMode::CreateTruncate => OpenFlags {
                write: true,
                create: true,
                exclusive: false,
                truncate: true,
                append: false,
            },
            OpenMode::CreateAppend => OpenFlags {
                write: true,
                create: true,
                exclusive: false,
                truncate: false,
                append: true,
            },
        }
    }
}

/// What open(2) with flags `f` does to a file whose content is `existing`
/// (`None` if there is no file): the content the descriptor starts from, or
/// `None` if the open fails and the file is left as it was. O_CREAT makes a
/// missing file, O_EXCL refuses an existing one, O_TRUNC (on a descriptor
/// opened for writing) empties it.
pub open spec fn open_effect(f: OpenFlags, existing: Option<Seq<u8>>) -> Option<Seq<u8>> {
    match existing {
        None => if f.create {
            Some(Seq::empty())
        } else {
            None
        },
        Some(c) => if f.create && f.exclusive {
            None
        } else if f.write && f.truncate {
            Some(Seq::empty())
        } else {
            Some(c)
        },
    }
}

pub open spec fn out_mode(r: &RedirectOut) -> OpenMode {
    match r {
        RedirectOut::Normal(_) => OpenMode::CreateExclusive,
        RedirectOut::Overwrite(_) => OpenMode::CreateTruncate,
        RedirectOut::Append(_) => OpenMode::CreateAppend,
    }
}

/// The default `>` form refuses a target that exists and leaves it as it
/// was, while the overwrite form opens the same target and empties it.
pub proof fn lemma_exclusive_refuses_existing(target: Str, content: Seq<u8>)
    ensures
        open_effect(flags_of(out_mode(&RedirectOut::Normal(target))), Some(content)) is None,
        open_effect(flags_of(out_mode(&RedirectOut::Overwrite(target))), Some(content)) == Some(
            Seq::<u8>::empty(),
        ),
{
}

/// Input redirection opens an existing file as it is and creates none.
pub proof fn lemma_input_needs_existing_file(content: Seq<u8>)
    ensures
        open_effect(flags_of(OpenMode::Read), None) is None,
        open_effect(flags_of(OpenMode::Read), Some(content)) == Some(content),
        !flags_of(OpenMode::Read).write,
{
}

impl RedirectOut {
    /// How the target is opened.
    pub fn mode(&self) -> (r: OpenMode)
        ensures
            r == out_mode(self),
    {
        match self {
            RedirectOut::Normal(_) => OpenMode::CreateExclusive,
            RedirectOut::Overwrite(_) => OpenMode::CreateTruncate,
            RedirectOut::Append(_) => OpenMode::CreateAppend,
        }
    }

    /// The expression that names the target.
    pub fn target(&self) -> (r: &Str)
        ensures
            match self {
                RedirectOut::Normal(s) => r == s,
                RedirectOut::Overwrite(s) => r == s,
                RedirectOut::Append(s) => r == s,
            },
    {
        match self {
            RedirectOut::Normal(s) => s,
            RedirectOut::Overwrite(s) => s,
            RedirectOut::Append(s) => s,
        }
    }
}

impl RedirectIn {
    /// The expression that names the file to read; inline text is not
    /// supported.
    pub fn target(&self) -> (r: Result<&Str, ShellError>)
        ensures
            match self {
                RedirectIn::Normal(s) => r == Ok::<&Str, ShellError>(s),
                RedirectIn::Heredoc(_) => r matches Err(ShellError::Unsupported(_)),
            },
    {
        match self {
            RedirectIn::Normal(s) => Ok(s),
            RedirectIn::Heredoc(_) => Err(ShellError::Unsupported("inline input".to_owned())),
        }
    }
}

/// Why the system refused to open a file.
#[derive(Clone, Copy, Debug, PartialEq, Eq, Structural)]
pub enum OpenFailure {
    /// The file exists (EEXIST).
    Exists,
    /// The file does not exist (ENOENT).
    Missing,
    /// Any other reason.
    Other,
}

/// The error for a failed open of `path`: an exclusive create that found the
/// file is `AlreadyExists`, a read of a missing file is `NotFound`; any other
/// failure keeps the system's message.
pub fn open_failure(path: String, mode: OpenMode, why: OpenFailure, message: String) -> (r:
    ShellError)
    ensures
        mode == OpenMode::CreateExclusive && why == OpenFailure::Exists ==> r
            == ShellError::AlreadyExists(path),
        mode == OpenMode::Read && why == OpenFailure::Missing ==> r == ShellError::NotFound(path),
        !(mode == OpenMode::CreateExclusive && why == OpenFailure::Exists) && !(mode
            == OpenMode::Read && why == OpenFailure::Missing) ==> r == ShellError::Io(message),
{
    if mode == OpenMode::CreateExclusive && why == OpenFailure::Exists {
        ShellError::AlreadyExists(path)
    } else if mode == OpenMode::Read && why == OpenFailure::Missing {
        ShellError::NotFound(path)
    } else {
        ShellError::Io(message)
    }
}

/// The descriptor a command uses for one stream: its own redirection if it
/// has one, otherwise the one the pipeline supplies.
pub fn effective_fd(supplied: i32, redirected: Option<i32>) -> (r: i32)
    ensures
        r == match redirected {
            Some(fd) => fd,
            None => supplied,
        },
{
    match redirected {
        Some(fd) => fd,
        None => supplied,
    }
}

} // verus!
