//! Bounded windows on a byte source.
//!
//! A window shows the bytes `[start, end)` of a source as a stream of its
//! own. [`Partition`] owns its source. [`PartitionMutex`] shares it with
//! other windows through a lock, and keeps its own cursor outside the lock.

use crate::shared::{acquire, protected};
use crate::source::{
    lemma_span_join, min_nat, read_exact, remaining, same_source, span, ByteSource, IoError,
    IoErrorKind, SeekFrom,
};
use std::sync::Arc;
use std::sync::Mutex;
use vstd::prelude::*;

verus! {

/// The bytes of `bytes` that the window `[start, end)` shows.
pub open spec fn window(bytes: Seq<u8>, start: nat, end: nat) -> Seq<u8> {
    if start <= end && start <= bytes.len() {
        bytes.subrange(start as int, min_nat(end, bytes.len()) as int)
    } else {
        Seq::empty()
    }
}

/// How many bytes a window that ends at `end` has left at `pointer`.
pub open spec fn window_left(end: u64, pointer: u64) -> nat {
    if pointer <= end {
        (end - pointer) as nat
    } else {
        0
    }
}

/// The absolute position that `target` names in a window.
pub open spec fn seek_goal(start: u64, end: u64, pointer: u64, target: SeekFrom) -> int {
    match target {
        SeekFrom::Start(k) => start + k,
        SeekFrom::End(k) => end + k,
        SeekFrom::Current(k) => pointer + k,
    }
}

/// A span of a window is a span of the bytes below it.
pub proof fn lemma_window_span(bytes: Seq<u8>, start: nat, end: nat, at: nat, n: nat)
    requires
        start <= at,
        at + n <= end,
        at + n <= bytes.len(),
    ensures
        span(window(bytes, start, end), (at - start) as nat, n) == span(bytes, at, n),
{
    assert(span(window(bytes, start, end), (at - start) as nat, n) =~= span(bytes, at, n));
}

/// What a read through a window that ends at `end`, with the cursor at
/// `pointer`, gives for a buffer of `len` bytes, whatever the source: never
/// more than the window has left, and all that it has left where the buffer
/// is longer than that.
pub open spec fn window_read(len: nat, end: u64, pointer: u64, r: (u64, Result<usize, IoError>)) -> bool {
    match r.1 {
        Ok(n) => {
            &&& n <= len
            &&& n <= window_left(end, pointer)
            &&& window_left(end, pointer) < len ==> n == window_left(end, pointer)
            &&& r.0 == pointer + n
        },
        Err(_) => pointer <= r.0 <= pointer + window_left(end, pointer),
    }
}

/// A read that is longer than what the window has left leaves the buffer
/// past the bytes that it stored as it was: `had` and `has` are the buffer
/// before and after. Where such a read fails, the bytes that it stored are
/// those that the cursor has moved past.
pub open spec fn rest_kept(
    had: Seq<u8>,
    has: Seq<u8>,
    end: u64,
    pointer: u64,
    r: (u64, Result<usize, IoError>),
) -> bool {
    window_left(end, pointer) < had.len() ==> has.skip(r.0 - pointer) == had.skip(r.0 - pointer)
}

/// Where a read that is longer than what the window has left fails on a
/// source that has the bytes `bytes`, the cursor stands just past the bytes
/// that came, and these are at the front of the buffer `has`.
pub open spec fn came_before_failure(
    bytes: Seq<u8>,
    has: Seq<u8>,
    end: u64,
    pointer: u64,
    cursor: u64,
) -> bool {
    window_left(end, pointer) < has.len() ==> has.take(cursor - pointer) == span(
        bytes,
        pointer as nat,
        (cursor - pointer) as nat,
    )
}

/// What a read through a window that ends at `end`, with the cursor at
/// `pointer`, gives on a source that has a model: the bytes at the cursor,
/// and as many as the buffer and the window allow where the source is
/// dependable and holds the whole window.
pub open spec fn read_from<T: ByteSource>(
    before: &T,
    after: &T,
    buf: Seq<u8>,
    end: u64,
    pointer: u64,
    r: (u64, Result<usize, IoError>),
) -> bool {
    match r.1 {
        Ok(n) => {
            &&& n <= remaining(before.bytes(), pointer as nat)
            &&& before.dependable() && end <= before.bytes().len() ==> n == min_nat(
                buf.len(),
                window_left(end, pointer),
            )
            &&& after.position() == r.0
            &&& buf.take(n as int) == span(before.bytes(), pointer as nat, n as nat)
        },
        Err(_) => {
            &&& !(before.dependable() && end <= before.bytes().len())
            &&& came_before_failure(before.bytes(), buf, end, pointer, r.0)
        },
    }
}

/// Reads from a source whose cursor is at `pointer`, through a window that
/// ends at `end`. Returns the cursor after the read, and what the read gave.
///
/// A buffer that fits into what the window has left is handed to the source
/// as it is. A longer one gets the rest of the window byte by byte, so that
/// nothing past `end` is ever handed out. Where a byte fails, the cursor
/// stays behind the last one that came, and the source is asked to go back
/// there.
pub fn partition_read<T: ByteSource>(buf: &mut [u8], file: &mut T, end: u64, pointer: u64) -> (r: (
    u64,
    Result<usize, IoError>,
))
    requires
        old(file).wf(),
        old(file).modeled() ==> old(file).position() == pointer,
    ensures
        same_source(old(file), final(file)),
        final(buf)@.len() == old(buf)@.len(),
        window_read(old(buf)@.len(), end, pointer, r),
        rest_kept(old(buf)@, final(buf)@, end, pointer, r),
        r.1 is Ok ==> final(file).wf(),
        old(file).modeled() ==> read_from(old(file), final(file), final(buf)@, end, pointer, r),
{
    let left: u64 = if pointer <= end {
        end - pointer
    } else {
        0
    };
    let len = buf.len();
    if len as u64 <= left {
        match file.read(buf) {
            Ok(n) => (pointer + n as u64, Ok(n)),
            Err(e) => (pointer, Err(e)),
        }
    } else {
        let total: usize = left as usize;
        let ghost bytes = file.bytes();
        let mut done: usize = 0;
        let mut one = [0u8;1];
        while done < total
            invariant
                done <= total < len == buf@.len() == old(buf)@.len(),
                total == left == window_left(end, pointer),
                bytes == old(file).bytes(),
                same_source(old(file), file),
                file.wf(),
                buf@.skip(done as int) == old(buf)@.skip(done as int),
                file.modeled() ==> {
                    &&& file.position() == pointer + done
                    &&& done <= remaining(bytes, pointer as nat)
                    &&& buf@.take(done as int) == span(bytes, pointer as nat, done as nat)
                },
            decreases total - done,
        {
            match read_exact(file, &mut one) {
                Ok(_) => {},
                Err(e) => {
                    let known_good: u64 = pointer + done as u64;
                    let _ = file.seek(SeekFrom::Start(known_good));
                    return (known_good, Err(e));
                },
            }
            let ghost before = buf@;
            buf[done] = one[0];
            proof {
                assert(buf@.skip(done + 1) =~= before.skip(done as int).skip(1));
                assert(old(buf)@.skip(done + 1) =~= old(buf)@.skip(done as int).skip(1));
                if file.modeled() {
                    assert(one@ =~= span(bytes, (pointer + done) as nat, 1));
                    assert(buf@.take(done + 1) =~= before.take(done as int) + one@);
                    lemma_span_join(bytes, pointer as nat, done as nat, 1);
                }
            }
            done += 1;
        }
        (pointer + total as u64, Ok(total))
    }
}

/// The absolute position that `target` names in the window `[start, end)`
/// with its cursor at `pointer`.
///
/// A target before `start` is refused, and so is one past what a `u64`
/// holds. One past `end` is not: a read from there gives nothing.
pub fn seek_position(start: u64, end: u64, pointer: u64, target: SeekFrom) -> (r: Result<
    u64,
    IoError,
>)
    ensures
        match r {
            Ok(p) => p == seek_goal(start, end, pointer, target) && start <= p,
            Err(e) => {
                &&& !(start <= seek_goal(start, end, pointer, target) <= u64::MAX)
                &&& e.kind == IoErrorKind::InvalidInput
            },
        },
{
    let goal: Option<u64> = match target {
        SeekFrom::Start(k) => start.checked_add(k),
        SeekFrom::End(k) => crate::source::offset_by(end, k),
        SeekFrom::Current(k) => crate::source::offset_by(pointer, k),
    };
    match goal {
        Some(p) => {
            if p < start {
                Err(
                    IoError::new(
                        IoErrorKind::InvalidInput,
                        "can't seek before the beginning of the partition",
                    ),
                )
            } else {
                Ok(p)
            }
        },
        None => Err(
            IoError::new(IoErrorKind::InvalidInput, "can't seek outside the addressable range"),
        ),
    }
}

/// Moves the cursor of a window `[start, end)` on `file` to where `target`
/// says. Returns the cursor after the call, and the new offset in the window.
pub fn partition_seek<T: ByteSource>(
    file: &mut T,
    start: u64,
    end: u64,
    pointer: u64,
    target: SeekFrom,
) -> (r: (u64, Result<u64, IoError>))
    ensures
        same_source(old(file), final(file)),
        match r.1 {
            Ok(offset) => {
                &&& start <= seek_goal(start, end, pointer, target) <= u64::MAX
                &&& r.0 == seek_goal(start, end, pointer, target)
                &&& offset == r.0 - start
                &&& final(file).wf()
            },
            Err(e) => {
                &&& r.0 == pointer
                &&& !(start <= seek_goal(start, end, pointer, target) <= u64::MAX) ==> {
                    &&& e.kind == IoErrorKind::InvalidInput
                    &&& *final(file) == *old(file)
                }
            },
        },
        old(file).modeled() ==> match r.1 {
            Ok(_) => final(file).position() == r.0,
            Err(_) => !(old(file).dependable() && start <= seek_goal(start, end, pointer, target)
                <= old(file).bytes().len() && seek_goal(start, end, pointer, target) <= u64::MAX),
        },
{
    let new_real_pos: u64 = match seek_position(start, end, pointer, target) {
        Ok(p) => p,
        Err(e) => {
            return (pointer, Err(e));
        },
    };
    match file.seek(SeekFrom::Start(new_real_pos)) {
        Ok(_) => (new_real_pos, Ok(new_real_pos - start)),
        Err(e) => (pointer, Err(e)),
    }
}

/// A window on a source that it owns.
pub struct Partition<T: ByteSource> {
    file: T,
    /// The offset of the first byte that is in the window.
    start: u64,
    pointer: u64,
    /// The offset of the first byte that is not in the window.
    end: u64,
}

impl<T: ByteSource> Partition<T> {
    /// The source below the window.
    pub closed spec fn source(&self) -> T {
        self.file
    }

    /// The offset in the source of the first byte of the window.
    pub closed spec fn window_start(&self) -> u64 {
        self.start
    }

    /// The offset in the source of the first byte past the window.
    pub closed spec fn window_end(&self) -> u64 {
        self.end
    }

    /// The offset in the source of the cursor.
    pub closed spec fn pointer(&self) -> u64 {
        self.pointer
    }

    /// The cursor is not before the window, and the window does not end
    /// before it starts.
    pub open spec fn bounded(&self) -> bool {
        self.window_start() <= self.pointer() && self.window_start() <= self.window_end()
    }

    /// The window `[start, start + lenght)` on `file`, with the cursor at its
    /// start. Fails where the source refuses to go there.
    pub fn new(file: T, start: u64, lenght: u64) -> (r: Result<Partition<T>, IoError>)
        requires
            start + lenght <= u64::MAX,
        ensures
            r matches Ok(p) ==> {
                &&& p.wf()
                &&& p.bounded()
                &&& p.window_start() == start
                &&& p.window_end() == start + lenght
                &&& p.pointer() == start
                &&& same_source(&file, &p.source())
            },
            file.modeled() && r is Err ==> !(file.dependable() && start <= file.bytes().len()),
    {
        let mut result = Partition { file, start, pointer: start, end: start + lenght };
        match result.seek(SeekFrom::Start(0)) {
            Ok(_) => Ok(result),
            Err(e) => Err(e),
        }
    }
}

/// A window is a source in its turn. Its bytes are those of the source below
/// that lie in the window, and its positions count from the start of the
/// window.
impl<T: ByteSource> ByteSource for Partition<T> {
    open spec fn modeled(&self) -> bool {
        self.source().modeled()
    }

    /// The cursor is not before the window, and the source below stands
    /// where the cursor of the window is.
    open spec fn wf(&self) -> bool {
        &&& self.window_start() <= self.pointer()
        &&& self.source().wf()
        &&& self.source().modeled() ==> self.source().position() == self.pointer()
    }

    open spec fn bytes(&self) -> Seq<u8> {
        window(self.source().bytes(), self.window_start() as nat, self.window_end() as nat)
    }

    open spec fn position(&self) -> nat {
        (self.pointer() - self.window_start()) as nat
    }

    /// The source below is dependable, and holds the whole window.
    open spec fn dependable(&self) -> bool {
        &&& self.source().dependable()
        &&& self.window_start() <= self.window_end() <= self.source().bytes().len()
    }

    /// Reads from the cursor on, never past the end of the window, and moves
    /// the cursor past what was read.
    fn read(&mut self, buf: &mut [u8]) -> (r: Result<usize, IoError>)
        ensures
            final(self).window_start() == old(self).window_start(),
            final(self).window_end() == old(self).window_end(),
            same_source(&old(self).source(), &final(self).source()),
            old(self).bounded() ==> final(self).bounded(),
            window_read(
                old(buf)@.len(),
                old(self).window_end(),
                old(self).pointer(),
                (final(self).pointer(), r),
            ),
            rest_kept(
                old(buf)@,
                final(buf)@,
                old(self).window_end(),
                old(self).pointer(),
                (final(self).pointer(), r),
            ),
            old(self).modeled() ==> read_from(
                &old(self).source(),
                &final(self).source(),
                final(buf)@,
                old(self).window_end(),
                old(self).pointer(),
                (final(self).pointer(), r),
            ),
    {
        let (pointer, result) = partition_read(buf, &mut self.file, self.end, self.pointer);
        proof {
            if let Ok(n) = result {
                if n > 0 && self.file.modeled() {
                    lemma_window_span(
                        self.file.bytes(),
                        self.start as nat,
                        self.end as nat,
                        self.pointer as nat,
                        n as nat,
                    );
                }
            }
        }
        self.pointer = pointer;
        result
    }

    /// Moves the cursor to where `target` says, and returns its new offset in
    /// the window. A target before the window is refused as invalid input;
    /// one past its end is not refused.
    fn seek(&mut self, target: SeekFrom) -> (r: Result<u64, IoError>)
        ensures
            final(self).window_start() == old(self).window_start(),
            final(self).window_end() == old(self).window_end(),
            same_source(&old(self).source(), &final(self).source()),
            old(self).bounded() ==> final(self).bounded(),
            match r {
                Ok(offset) => {
                    &&& final(self).pointer() == old(self).seek_goal(target)
                    &&& offset == final(self).pointer() - final(self).window_start()
                },
                Err(e) => {
                    &&& final(self).pointer() == old(self).pointer()
                    &&& old(self).seek_goal(target) < old(self).window_start() ==> {
                        &&& e.kind == IoErrorKind::InvalidInput
                        &&& *final(self) == *old(self)
                    }
                },
            },
            old(self).source().modeled() && r is Err ==> !(old(self).source().dependable() && old(
                self,
            ).window_start() <= old(self).seek_goal(target) <= old(self).source().bytes().len()
                && old(self).seek_goal(target) <= u64::MAX),
    {
        let (pointer, result) = partition_seek(
            &mut self.file,
            self.start,
            self.end,
            self.pointer,
            target,
        );
        self.pointer = pointer;
        result
    }
}

impl<T: ByteSource> Partition<T> {
    /// The absolute position that `target` names.
    pub open spec fn seek_goal(&self, target: SeekFrom) -> int {
        seek_goal(self.window_start(), self.window_end(), self.pointer(), target)
    }

    /// A dependable window shows as many bytes as it is long: reading it to
    /// its end gives its length.
    pub proof fn lemma_dependable_window_is_whole(&self)
        requires
            self.dependable(),
        ensures
            self.bytes().len() == self.window_end() - self.window_start(),
            self.bytes() == self.source().bytes().subrange(
                self.window_start() as int,
                self.window_end() as int,
            ),
    {
    }
}

/// What sending the source `before` to `goal` gives, where `after` is the
/// source afterwards and `went` says whether it went: a source that has a
/// model then stands at `goal`, and one that is dependable does not refuse a
/// place inside its bytes.
pub open spec fn sent_to<T: ByteSource>(before: &T, after: &T, goal: int, went: bool) -> bool {
    &&& same_source(before, after)
    &&& went ==> after.wf()
    &&& before.modeled() ==> if went {
        after.position() == goal
    } else {
        !(before.dependable() && goal <= before.bytes().len())
    }
}

/// What reading through a window that ends at `end`, from `pointer` on,
/// gives on the source `before`, wherever its cursor is: `after` is the
/// source afterwards, `had` and `has` are the buffer before and after, and
/// `r` is the cursor of the window after the read with what the read gave.
///
/// Whatever the source, no more comes than the window has left. On a source
/// that has a model, what comes are its bytes from `pointer` on; one that is
/// dependable and holds the window up to its end does not fail.
pub open spec fn read_through<T: ByteSource>(
    before: &T,
    after: &T,
    had: Seq<u8>,
    has: Seq<u8>,
    end: u64,
    pointer: u64,
    r: (u64, Result<usize, IoError>),
) -> bool {
    &&& same_source(before, after)
    &&& has.len() == had.len()
    &&& window_read(had.len(), end, pointer, r)
    &&& rest_kept(had, has, end, pointer, r)
    &&& r.1 is Ok ==> after.wf()
    &&& before.modeled() ==> match r.1 {
        Ok(_) => read_from(before, after, has, end, pointer, r),
        Err(_) => {
            &&& !(before.dependable() && end <= before.bytes().len() && pointer
                <= before.bytes().len())
            &&& came_before_failure(before.bytes(), has, end, pointer, r.0)
        },
    }
}

/// The error of a window whose lock was left poisoned.
pub open spec fn is_poisoned(e: IoError) -> bool {
    e.kind == IoErrorKind::Other && e.message@ == "the file mutex is poisoned"@
}

/// Reads through a window that ends at `end`, from `pointer` on, on a source
/// whose cursor may be anywhere: the source is first sent to `pointer`.
pub fn read_at<T: ByteSource>(buf: &mut [u8], file: &mut T, end: u64, pointer: u64) -> (r: (
    u64,
    Result<usize, IoError>,
))
    ensures
        read_through(old(file), final(file), old(buf)@, final(buf)@, end, pointer, r),
{
    match file.seek(SeekFrom::Start(pointer)) {
        Ok(_) => partition_read(buf, file, end, pointer),
        Err(e) => {
            assert(buf@.take(0) =~= Seq::<u8>::empty());
            (pointer, Err(e))
        },
    }
}

/// A window on a source that it shares with others through a lock.
///
/// The cursor belongs to the window, not to the source: each read sends the
/// source to the cursor while it holds the lock, so that what other windows
/// did in between does not matter.
#[verifier::reject_recursive_types(T)]
pub struct PartitionMutex<T: ByteSource> {
    file: Arc<Mutex<T>>,
    start: u64,
    pointer: u64,
    end: u64,
}

impl<T: ByteSource> PartitionMutex<T> {
    /// The offset in the source of the first byte of the window.
    pub closed spec fn window_start(&self) -> u64 {
        self.start
    }

    /// The offset in the source of the first byte past the window.
    pub closed spec fn window_end(&self) -> u64 {
        self.end
    }

    /// The offset in the source of the cursor.
    pub closed spec fn pointer(&self) -> u64 {
        self.pointer
    }

    /// The cursor is not before the window, and the window does not end
    /// before it starts.
    pub open spec fn bounded(&self) -> bool {
        self.window_start() <= self.pointer() && self.window_start() <= self.window_end()
    }

    /// The absolute position that `target` names.
    pub open spec fn seek_goal(&self, target: SeekFrom) -> int {
        seek_goal(self.window_start(), self.window_end(), self.pointer(), target)
    }

    /// The lock that the window shares its source through.
    pub closed spec fn lock(&self) -> Arc<Mutex<T>> {
        self.file
    }

    /// The window `[start, start + lenght)` on the shared source, with the
    /// cursor at its start. The source is locked and sent to `start`.
    ///
    /// Fails only where the lock is poisoned, or where the source that the
    /// lock holds refuses to go to `start`: which source that is cannot be
    /// said here, so the outcome is stated of some source.
    pub fn new(file: Arc<Mutex<T>>, start: u64, lenght: u64) -> (r: Result<
        PartitionMutex<T>,
        IoError,
    >)
        requires
            start + lenght <= u64::MAX,
        ensures
            r matches Ok(p) ==> {
                &&& p.lock() == file
                &&& p.bounded()
                &&& p.window_start() == start
                &&& p.window_end() == start + lenght
                &&& p.pointer() == start
            },
            match r {
                Ok(_) => exists|before: T, after: T| #[trigger] sent_to(&before, &after, start as int, true),
                Err(e) => is_poisoned(e) || exists|before: T, after: T| #[trigger]
                    sent_to(&before, &after, start as int, false),
            },
    {
        let mut result = PartitionMutex { file, start, pointer: start, end: start + lenght };
        match result.seek(SeekFrom::Start(0)) {
            Ok(_) => {
                proof {
                    let (before, after) = choose|before: T, after: T| #[trigger]
                        sent_to(&before, &after, start as int, true);
                    assert(sent_to(&before, &after, start as int, true));
                }
                Ok(result)
            },
            Err(e) => {
                proof {
                    if !is_poisoned(e) {
                        let (before, after) = choose|before: T, after: T| #[trigger]
                            sent_to(&before, &after, start as int, false);
                        assert(sent_to(&before, &after, start as int, false));
                    }
                }
                Err(e)
            },
        }
    }

    /// Reads from the cursor on, never past the end of the window, and moves
    /// the cursor past what was read.
    ///
    /// The source is locked for the read, and sent to the cursor first. A
    /// poisoned lock fails the read and changes nothing. Else the read is
    /// one through the window on the source that the lock holds: which
    /// source that is cannot be said here, so the outcome is stated of some
    /// source, as [`read_through`] has it.
    pub fn read(&mut self, buf: &mut [u8]) -> (r: Result<usize, IoError>)
        ensures
            final(self).lock() == old(self).lock(),
            final(self).window_start() == old(self).window_start(),
            final(self).window_end() == old(self).window_end(),
            old(self).bounded() ==> final(self).bounded(),
            final(buf)@.len() == old(buf)@.len(),
            window_read(
                old(buf)@.len(),
                old(self).window_end(),
                old(self).pointer(),
                (final(self).pointer(), r),
            ),
            rest_kept(
                old(buf)@,
                final(buf)@,
                old(self).window_end(),
                old(self).pointer(),
                (final(self).pointer(), r),
            ),
            (r matches Err(e) && is_poisoned(e) && *final(self) == *old(self) && final(buf)@
                == old(buf)@) || exists|before: T, after: T| #[trigger]
                read_through(
                    &before,
                    &after,
                    old(buf)@,
                    final(buf)@,
                    old(self).window_end(),
                    old(self).pointer(),
                    (final(self).pointer(), r),
                ),
    {
        let mut guard = match acquire(&*self.file) {
            Some(guard) => guard,
            None => {
                return Err(poisoned());
            },
        };
        let file = protected(&mut guard);
        let ghost before = *file;
        let (pointer, result) = read_at(buf, file, self.end, self.pointer);
        let ghost after = *file;
        self.pointer = pointer;
        proof {
            assert(read_through(
                &before,
                &after,
                old(buf)@,
                buf@,
                old(self).window_end(),
                old(self).pointer(),
                (self.pointer(), result),
            ));
        }
        result
    }

    /// Moves the cursor to where `target` says, and returns its new offset in
    /// the window. A target before the window is refused as invalid input;
    /// one past its end is not refused.
    pub fn seek(&mut self, target: SeekFrom) -> (r: Result<u64, IoError>)
        ensures
            final(self).lock() == old(self).lock(),
            final(self).window_start() == old(self).window_start(),
            final(self).window_end() == old(self).window_end(),
            old(self).bounded() ==> final(self).bounded(),
            match r {
                Ok(offset) => {
                    &&& old(self).window_start() <= old(self).seek_goal(target)
                    &&& final(self).pointer() == old(self).seek_goal(target)
                    &&& offset == final(self).pointer() - final(self).window_start()
                },
                Err(e) => {
                    &&& *final(self) == *old(self)
                    &&& !(old(self).window_start() <= old(self).seek_goal(target) <= u64::MAX)
                        ==> e.kind == IoErrorKind::InvalidInput
                },
            },
            old(self).window_start() <= old(self).seek_goal(target) <= u64::MAX ==> match r {
                Ok(_) => exists|before: T, after: T| #[trigger]
                    sent_to(&before, &after, old(self).seek_goal(target), true),
                Err(e) => is_poisoned(e) || exists|before: T, after: T| #[trigger]
                    sent_to(&before, &after, old(self).seek_goal(target), false),
            },
    {
        let goal: u64 = match seek_position(self.start, self.end, self.pointer, target) {
            Ok(p) => p,
            Err(e) => {
                return Err(e);
            },
        };
        let mut guard = match acquire(&*self.file) {
            Some(guard) => guard,
            None => {
                return Err(poisoned());
            },
        };
        let file = protected(&mut guard);
        let ghost before = *file;
        let sought = file.seek(SeekFrom::Start(goal));
        let ghost after = *file;
        match sought {
            Ok(_) => {
                assert(sent_to(&before, &after, goal as int, true));
                self.pointer = goal;
                Ok(goal - self.start)
            },
            Err(e) => {
                assert(sent_to(&before, &after, goal as int, false));
                Err(e)
            },
        }
    }

    /// Refuses: a window is never written through.
    pub fn write(&mut self, buf: &[u8]) -> (r: Result<usize, IoError>)
        ensures
            r matches Err(e) && e.kind == IoErrorKind::PermissionDenied,
            *final(self) == *old(self),
    {
        Err(IoError::new(IoErrorKind::PermissionDenied, "a partition can't be written to"))
    }

    /// Does nothing, and succeeds.
    pub fn flush(&mut self) -> (r: Result<(), IoError>)
        ensures
            r is Ok,
            *final(self) == *old(self),
    {
        Ok(())
    }
}

/// What a window reports where the lock on its source is poisoned.
fn poisoned() -> (e: IoError)
    ensures
        is_poisoned(e),
{
    IoError::new(IoErrorKind::Other, "the file mutex is poisoned")
}

} // verus!
