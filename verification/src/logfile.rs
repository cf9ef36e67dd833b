//! Log file with size-based rotation. The log is appended to one file; once it grows beyond the
//! limit it is moved to `<name>.1` (replacing an older one) and a new file is started, so at most
//! two files of bounded size remain. The check runs on every write, not only at startup, so a long
//! run cannot fill the disk.
//!
//! Here stands the bookkeeping: when to rotate, what to write and what to drop. The files themselves
//! are the caller's.

use vstd::prelude::*;
use crate::limit;

verus! {

/// The log file is rotated once it grows beyond this (checked on every write).
pub const LOG_ROTATE_BYTES: u64 = 5_242_880;

/// After a failed rotation the next attempt waits this long.
pub const RETRY_EVERY: u64 = 60_000_000_000;

/// The name under which a log file with this name is moved away.
pub fn rotated_path(name: &str) -> (r: String)
    ensures
        r@ == name@ + ".1"@,
{
    let mut r = name.to_owned();
    r.append(".1");
    r
}

/// Whether a file is moved away: it exists (then `size` is its size) and is larger than `max_bytes`.
pub fn rotate_if_larger(size: Option<u64>, max_bytes: u64) -> (r: bool)
    ensures
        r == (size is Some && size->0 > max_bytes),
{
    match size {
        Some(n) => n > max_bytes,
        None => false,
    }
}

/// The state of an append-only log file that rotates itself when it grows beyond `max_bytes`. If
/// rotation is impossible (the file is held open by another program without delete sharing), it
/// retries at most once a minute and stops writing at twice the limit, so the disk never fills up.
#[derive(Debug, Clone, Copy)]
pub struct RotatingFile {
    max_bytes: u64,
    is_open: bool,
    written: u64,
    last_attempt: Option<u64>,
}

/// The state of a log file.
#[verifier::ext_equal]
pub struct FileView {
    /// The limit.
    pub max_bytes: u64,
    /// Whether the file is open.
    pub is_open: bool,
    /// Its size.
    pub written: u64,
    /// When a rotation last failed.
    pub last_attempt: Option<u64>,
}

impl View for RotatingFile {
    type V = FileView;

    closed spec fn view(&self) -> FileView {
        FileView {
            max_bytes: self.max_bytes,
            is_open: self.is_open,
            written: self.written,
            last_attempt: self.last_attempt,
        }
    }
}

/// The most that one file may hold: twice the limit.
pub open spec fn hard_cap(max_bytes: u64) -> int {
    if 2 * max_bytes <= u64::MAX {
        2 * max_bytes
    } else {
        u64::MAX as int
    }
}

impl FileView {
    /// A file of `size` bytes that has just been opened.
    pub open spec fn opened(max_bytes: u64, size: u64) -> FileView {
        FileView { max_bytes, is_open: true, written: size, last_attempt: None }
    }

    /// Whether the file has to be rotated before `len` more bytes: it would grow beyond the limit,
    /// is not empty, and no rotation failed within the last minute.
    pub open spec fn wants_rotation(self, len: u64, now: u64) -> bool {
        &&& self.written + len > self.max_bytes
        &&& self.written > 0
        &&& self.last_attempt is None || limit::elapsed(self.last_attempt->0, now) >= RETRY_EVERY
    }

    /// The state after a rotation was tried; `size` is the size of the file that is open now, if one
    /// could be opened. Only if the old file is still there the next attempt waits.
    pub open spec fn rotated(self, now: u64, size: Option<u64>) -> FileView {
        let written = match size {
            Some(n) => n,
            None => 0,
        };
        FileView {
            is_open: size is Some,
            written,
            last_attempt: if written == 0 {
                None
            } else {
                Some(now)
            },
            ..self
        }
    }

    /// Whether `len` more bytes are written, and not dropped.
    pub open spec fn accepts(self, len: u64) -> bool {
        self.is_open && self.written + len <= hard_cap(self.max_bytes)
    }

    /// The state after `n` bytes were written.
    pub open spec fn wrote(self, n: u64) -> FileView {
        FileView { written: limit::counted(self.written, n as int) as u64, ..self }
    }
}

impl RotatingFile {
    /// A file of `size` bytes that has just been opened.
    pub fn open(max_bytes: u64, size: u64) -> (r: Self)
        ensures
            r@ == FileView::opened(max_bytes, size),
    {
        RotatingFile { max_bytes, is_open: true, written: size, last_attempt: None }
    }

    /// Whether the file has to be rotated before `len` more bytes.
    pub fn wants_rotation(&self, len: u64, now: u64) -> (r: bool)
        ensures
            r == self@.wants_rotation(len, now),
    {
        let may_retry = match self.last_attempt {
            Some(t) => limit::time_since(t, now) >= RETRY_EVERY,
            None => true,
        };
        let over = self.written > self.max_bytes || len > self.max_bytes - self.written;
        over && self.written > 0 && may_retry
    }

    /// A rotation was tried.
    pub fn rotated(&mut self, now: u64, size: Option<u64>)
        ensures
            final(self)@ == old(self)@.rotated(now, size),
    {
        self.is_open = size.is_some();
        self.written = match size {
            Some(n) => n,
            None => 0,
        };
        self.last_attempt = if self.written == 0 {
            None
        } else {
            Some(now)
        };
    }

    /// Whether `len` more bytes are written. Otherwise they are dropped: the file is at its hard cap
    /// or could not be opened, and logging must never take the program down.
    pub fn accepts(&self, len: u64) -> (r: bool)
        ensures
            r == self@.accepts(len),
    {
        let cap: u64 = if self.max_bytes <= u64::MAX / 2 {
            2 * self.max_bytes
        } else {
            u64::MAX
        };
        self.is_open && self.written <= cap && len <= cap - self.written
    }

    /// `n` bytes were written.
    pub fn wrote(&mut self, n: u64)
        ensures
            final(self)@ == old(self)@.wrote(n),
    {
        self.written = limit::count_up(self.written, n);
    }
}

// ---------------------------------------------------------------------------------------------
// Laws
// ---------------------------------------------------------------------------------------------

/// The state after a line of `len` bytes at `now`, where a rotation leaves a file of `size` bytes
/// open (none if it could not be opened) and the line is written as a whole.
pub open spec fn after_line(v: FileView, len: u64, now: u64, size: Option<u64>) -> FileView {
    let w = if v.wants_rotation(len, now) {
        v.rotated(now, size)
    } else {
        v
    };
    if w.accepts(len) {
        w.wrote(len)
    } else {
        w
    }
}

/// The disk never fills up: no write takes a file beyond twice the limit, whatever becomes of the
/// rotations.
pub proof fn never_beyond_twice_the_limit(v: FileView, len: u64, n: u64)
    requires
        v.accepts(len),
        n <= len,
    ensures
        v.wrote(n).written <= hard_cap(v.max_bytes),
{
}

/// While rotations work, the current file stays within the limit, as long as no single line is
/// larger than that.
pub proof fn bounded_while_rotation_works(v: FileView, len: u64, now: u64)
    requires
        v.is_open,
        v.last_attempt is None,
        v.written <= v.max_bytes,
        len <= v.max_bytes,
    ensures
        after_line(v, len, now, Some(0)).written <= v.max_bytes,
        after_line(v, len, now, Some(0)).is_open,
        after_line(v, len, now, Some(0)).last_attempt is None,
        after_line(v, len, now, Some(0)).written == if v.written + len > v.max_bytes && v.written
            > 0 {
            len as int
        } else {
            v.written + len
        },
{
}

/// While rotations fail, the file stays within twice the limit.
pub proof fn bounded_while_rotation_fails(v: FileView, len: u64, now: u64)
    requires
        v.written <= hard_cap(v.max_bytes),
    ensures
        after_line(v, len, now, Some(v.written)).written <= hard_cap(v.max_bytes),
{
}

/// After a failed rotation there is none for a minute.
pub proof fn retries_are_spaced(v: FileView, now: u64, size: u64, len: u64, later: u64)
    requires
        size > 0,
        limit::elapsed(now, later) < RETRY_EVERY,
    ensures
        !v.rotated(now, Some(size)).wants_rotation(len, later),
        !v.rotated(now, Some(size)).wrote(len).wants_rotation(len, later),
{
}

/// An empty file is never rotated, however long the line.
pub proof fn empty_files_stay(v: FileView, len: u64, now: u64)
    requires
        v.written == 0,
    ensures
        !v.wants_rotation(len, now),
{
}

/// When a file is rotated before a line: if the line would take it beyond the limit, it is not empty,
/// and no rotation failed within the last minute; in no other case.
pub proof fn when_a_file_is_rotated(v: FileView, len: u64, now: u64)
    requires
        v.last_attempt is Some ==> v.last_attempt->0 <= now,
    ensures
        v.wants_rotation(len, now) <==> v.written > 0 && v.written + len > v.max_bytes && (
        v.last_attempt is None || now - v.last_attempt->0 >= 60_000_000_000),
{
}

/// What a rotation leaves: the file that is open now, with its size; only if the old one is still there
/// the time of the attempt is kept.
pub proof fn what_a_rotation_leaves(v: FileView, now: u64, size: u64)
    ensures
        v.rotated(now, Some(size)).is_open,
        v.rotated(now, Some(size)).written == size,
        v.rotated(now, Some(size)).max_bytes == v.max_bytes,
        size == 0 ==> v.rotated(now, Some(size)).last_attempt is None,
        size > 0 ==> v.rotated(now, Some(size)).last_attempt == Some(now),
        !v.rotated(now, None).is_open,
        v.rotated(now, None).written == 0,
        v.rotated(now, None).last_attempt is None,
        v.rotated(now, None).max_bytes == v.max_bytes,
{
}

/// No line is lost while there is room: one that fits into twice the limit is written to an open file as
/// a whole, and no other is written.
pub proof fn lines_that_fit_are_written(v: FileView, len: u64)
    requires
        2 * v.max_bytes <= u64::MAX,
    ensures
        v.accepts(len) <==> v.is_open && v.written + len <= 2 * v.max_bytes,
        v.accepts(len) ==> v.wrote(len).written == v.written + len,
        v.wrote(len).is_open == v.is_open,
        v.wrote(len).max_bytes == v.max_bytes,
        v.wrote(len).last_attempt == v.last_attempt,
{
}

/// A line that has to wait for no rotation, or whose rotation failed, is still written while it fits.
pub proof fn failed_rotations_lose_no_line(v: FileView, len: u64, now: u64)
    requires
        v.is_open,
        2 * v.max_bytes <= u64::MAX,
        v.written + len <= 2 * v.max_bytes,
    ensures
        after_line(v, len, now, Some(v.written)).written == v.written + len,
        after_line(v, len, now, Some(v.written)).is_open,
{
}

/// A file that has just been opened has its size and may be rotated at once; the log's limit is five
/// mebibytes.
pub proof fn an_opened_file_has_its_size(max_bytes: u64, size: u64)
    ensures
        FileView::opened(max_bytes, size).is_open,
        FileView::opened(max_bytes, size).written == size,
        FileView::opened(max_bytes, size).max_bytes == max_bytes,
        FileView::opened(max_bytes, size).last_attempt is None,
        LOG_ROTATE_BYTES == 5 * 1024 * 1024,
{
}

} // verus!
