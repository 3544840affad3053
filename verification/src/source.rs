//! Random-access byte sources.
//!
//! A [`ByteSource`] is a stream of bytes with a cursor that can be moved.
//! Every reader of this crate is generic over it, and the windows of this
//! crate implement it in turn, so that containers nest. [`MemorySource`] is
//! the source that holds its bytes in memory.

use vstd::prelude::*;

verus! {

/// The categories of failure that this crate tells apart.
#[derive(Clone, Copy, Debug, PartialEq, Eq, Structural)]
pub enum IoErrorKind {
    NotFound,
    PermissionDenied,
    InvalidInput,
    InvalidData,
    UnexpectedEof,
    Other,
}

/// A failure reported by a byte source, or by a window on one.
#[derive(Clone, Debug)]
pub struct IoError {
    pub kind: IoErrorKind,
    pub message: String,
}

impl IoError {
    /// An error of the given kind with a fixed message.
    pub fn new(kind: IoErrorKind, message: &str) -> (e: IoError)
        ensures
            e.kind == kind,
            e.message@ == message@,
    {
        IoError { kind, message: String::from_str(message) }
    }
}

/// Where a seek goes: an offset from the start, from the end, or from the
/// current position.
#[derive(Clone, Copy, Debug)]
pub enum SeekFrom {
    Start(u64),
    End(i64),
    Current(i64),
}

/// The number of bytes between `position` and the end of `bytes`.
pub open spec fn remaining(bytes: Seq<u8>, position: nat) -> nat {
    if position <= bytes.len() {
        (bytes.len() - position) as nat
    } else {
        0
    }
}

/// The `n` bytes of `bytes` from offset `at` on, where they all exist.
pub open spec fn span(bytes: Seq<u8>, at: nat, n: nat) -> Seq<u8> {
    if 0 < n && at + n <= bytes.len() {
        bytes.subrange(at as int, (at + n) as int)
    } else {
        Seq::empty()
    }
}

/// Two adjoining spans make one.
pub proof fn lemma_span_join(bytes: Seq<u8>, at: nat, a: nat, b: nat)
    requires
        at + a + b <= bytes.len(),
    ensures
        span(bytes, at, a) + span(bytes, at + a, b) == span(bytes, at, a + b),
{
    assert(span(bytes, at, a) + span(bytes, at + a, b) =~= span(bytes, at, a + b));
}

/// The smaller of two naturals.
pub open spec fn min_nat(a: nat, b: nat) -> nat {
    if a <= b {
        a
    } else {
        b
    }
}

/// A seekable stream of bytes.
///
/// A source may have a model: a fixed sequence of bytes and the position of
/// a cursor in it. What `read` and `seek` give is then stated over that
/// model. A source without one, such as a file of the machine, promises only
/// that `read` stays inside the buffer. The functions that come with the
/// trait describe a source of which nothing is known.
pub trait ByteSource: Sized {
    /// The source has a model: `bytes`, `position` and `dependable` speak
    /// of it.
    open spec fn modeled(&self) -> bool {
        false
    }

    /// The source can be read from; where it has a model, its cursor is
    /// where `position` says.
    open spec fn wf(&self) -> bool {
        true
    }

    /// The bytes of the source. No operation changes them.
    open spec fn bytes(&self) -> Seq<u8> {
        Seq::empty()
    }

    /// The offset of the next byte that `read` returns.
    open spec fn position(&self) -> nat {
        0
    }

    /// A dependable source serves every request that its bytes can satisfy,
    /// and serves it in full.
    open spec fn dependable(&self) -> bool {
        false
    }

    /// Copies bytes from the cursor on into the front of `buf` and moves the
    /// cursor past them. Returns how many were copied.
    fn read(&mut self, buf: &mut [u8]) -> (r: Result<usize, IoError>)
        requires
            old(self).wf(),
        ensures
            final(self).modeled() == old(self).modeled(),
            final(self).bytes() == old(self).bytes(),
            final(self).dependable() == old(self).dependable(),
            final(buf)@.len() == old(buf)@.len(),
            r matches Ok(n) ==> n <= old(buf)@.len() && final(self).wf(),
            old(self).modeled() ==> match r {
                Ok(n) => {
                    &&& n <= remaining(old(self).bytes(), old(self).position())
                    &&& final(self).position() == old(self).position() + n
                    &&& final(buf)@.take(n as int) == span(
                        old(self).bytes(),
                        old(self).position(),
                        n as nat,
                    )
                    &&& old(self).dependable() ==> n == min_nat(
                        old(buf)@.len(),
                        remaining(old(self).bytes(), old(self).position()),
                    )
                },
                Err(_) => !old(self).dependable(),
            },
    ;

    /// Moves the cursor. Returns the new position.
    ///
    /// A target counted from the start is the new position itself. What a
    /// target counted from the end or from the cursor comes to is for each
    /// source to say.
    fn seek(&mut self, target: SeekFrom) -> (r: Result<u64, IoError>)
        ensures
            final(self).modeled() == old(self).modeled(),
            final(self).bytes() == old(self).bytes(),
            final(self).dependable() == old(self).dependable(),
            r is Ok ==> final(self).wf(),
            old(self).modeled() ==> match r {
                Ok(p) => {
                    &&& final(self).position() == p
                    &&& target matches SeekFrom::Start(k) ==> p == k
                },
                Err(_) => !(old(self).dependable() && seek_in_contents(old(self).bytes(), target)),
            },
    ;
}

/// `after` is the source `before` at a later time: it has the same bytes,
/// if it has any.
pub open spec fn same_source<T: ByteSource>(before: &T, after: &T) -> bool {
    &&& after.modeled() == before.modeled()
    &&& after.bytes() == before.bytes()
    &&& after.dependable() == before.dependable()
}

/// The target is counted from the start and lies inside `bytes`, or just past
/// their end.
pub open spec fn seek_in_contents(bytes: Seq<u8>, target: SeekFrom) -> bool {
    target matches SeekFrom::Start(k) && k <= bytes.len()
}

/// Fills `buf` from the cursor on, asking the source as often as it takes.
///
/// Fails with `UnexpectedEof` where the source ends before `buf` is full.
pub fn read_exact<T: ByteSource>(file: &mut T, buf: &mut [u8]) -> (r: Result<(), IoError>)
    requires
        old(file).wf(),
    ensures
        same_source(old(file), final(file)),
        final(buf)@.len() == old(buf)@.len(),
        r is Ok ==> final(file).wf(),
        old(file).modeled() ==> match r {
            Ok(_) => {
                &&& old(buf)@.len() <= remaining(old(file).bytes(), old(file).position())
                &&& final(file).position() == old(file).position() + old(buf)@.len()
                &&& final(buf)@ == span(old(file).bytes(), old(file).position(), old(buf)@.len())
            },
            Err(e) => !old(file).dependable() || (e.kind == IoErrorKind::UnexpectedEof
                && remaining(old(file).bytes(), old(file).position()) < old(buf)@.len()),
        },
{
    let len = buf.len();
    let ghost bytes = file.bytes();
    let ghost start = file.position();
    let mut filled: usize = 0;
    while filled < len
        invariant
            filled <= len == buf@.len() == old(buf)@.len(),
            file.wf(),
            bytes == old(file).bytes(),
            start == old(file).position(),
            same_source(old(file), file),
            file.modeled() ==> {
                &&& file.position() == start + filled
                &&& filled <= remaining(bytes, start)
                &&& buf@.take(filled as int) == span(bytes, start, filled as nat)
            },
        decreases len - filled,
    {
        let ghost before = buf@;
        let (_, rest) = buf.split_at_mut(filled);
        match file.read(rest) {
            Ok(n) => {
                if n == 0 {
                    return Err(IoError::new(IoErrorKind::UnexpectedEof, "failed to fill whole buffer"));
                }
                proof {
                    if file.modeled() {
                        assert(buf@.take(filled as int) =~= before.take(filled as int));
                        assert(buf@.subrange(filled as int, filled + n) =~= rest@.take(n as int));
                        assert(buf@.take(filled + n) =~= buf@.take(filled as int) + buf@.subrange(
                            filled as int,
                            filled + n,
                        ));
                        lemma_span_join(bytes, start, filled as nat, n as nat);
                    }
                }
                filled = filled + n;
            },
            Err(e) => {
                return Err(e);
            },
        }
    }
    proof {
        assert(buf@.take(len as int) =~= buf@);
    }
    Ok(())
}

/// A byte source held in memory.
pub struct MemorySource {
    data: Vec<u8>,
    cursor: u64,
}

impl MemorySource {
    /// The position that `target` names.
    pub open spec fn seek_goal(&self, target: SeekFrom) -> int {
        match target {
            SeekFrom::Start(k) => k as int,
            SeekFrom::End(k) => self.bytes().len() + k,
            SeekFrom::Current(k) => self.position() + k,
        }
    }

    /// A source over `data`, with the cursor at its first byte.
    pub fn new(data: Vec<u8>) -> (s: MemorySource)
        ensures
            s.modeled(),
            s.wf(),
            s.bytes() == data@,
            s.position() == 0,
            s.dependable(),
    {
        MemorySource { data, cursor: 0 }
    }
}

impl ByteSource for MemorySource {
    open spec fn modeled(&self) -> bool {
        true
    }

    open spec fn wf(&self) -> bool {
        true
    }

    closed spec fn bytes(&self) -> Seq<u8> {
        self.data@
    }

    closed spec fn position(&self) -> nat {
        self.cursor as nat
    }

    open spec fn dependable(&self) -> bool {
        true
    }

    fn read(&mut self, buf: &mut [u8]) -> (r: Result<usize, IoError>)
        ensures
            r matches Ok(n) && final(buf)@.skip(n as int) == old(buf)@.skip(n as int),
    {
        let len = self.data.len();
        if self.cursor >= len as u64 {
            return Ok(0);
        }
        let start: usize = self.cursor as usize;
        let left: usize = len - start;
        let n: usize = if buf.len() <= left { buf.len() } else { left };
        let mut i: usize = 0;
        while i < n
            invariant
                i <= n,
                n <= buf@.len(),
                start + n <= self.data@.len() == len,
                buf@.len() == old(buf)@.len(),
                buf@.take(i as int) == span(self.data@, start as nat, i as nat),
                buf@.skip(i as int) == old(buf)@.skip(i as int),
            decreases n - i,
        {
            let ghost before = buf@;
            buf[i] = self.data[start + i];
            i += 1;
            assert(buf@.take(i as int) =~= span(self.data@, start as nat, i as nat));
            assert(buf@.skip(i as int) =~= before.skip(i - 1).skip(1));
            assert(old(buf)@.skip(i as int) =~= old(buf)@.skip(i - 1).skip(1));
        }
        self.cursor = self.cursor + n as u64;
        Ok(n)
    }

    fn seek(&mut self, target: SeekFrom) -> (r: Result<u64, IoError>)
        ensures
            match r {
                Ok(p) => p == old(self).seek_goal(target),
                Err(e) => {
                    &&& e.kind == IoErrorKind::InvalidInput
                    &&& !(0 <= old(self).seek_goal(target) <= u64::MAX)
                    &&& *final(self) == *old(self)
                },
            },
    {
        let len = self.data.len() as u64;
        let goal: Option<u64> = match target {
            SeekFrom::Start(k) => Some(k),
            SeekFrom::End(k) => offset_by(len, k),
            SeekFrom::Current(k) => offset_by(self.cursor, k),
        };
        match goal {
            Some(p) => {
                self.cursor = p;
                Ok(p)
            },
            None => Err(IoError::new(IoErrorKind::InvalidInput, "seek to an unreachable position")),
        }
    }
}

/// `base + delta`, where that is a `u64`.
pub fn offset_by(base: u64, delta: i64) -> (r: Option<u64>)
    ensures
        match r {
            Some(p) => p == base + delta,
            None => base + delta < 0 || base + delta > u64::MAX,
        },
{
    if delta >= 0 {
        base.checked_add(delta as u64)
    } else {
        let back: u64 = if delta == i64::MIN {
            0x8000_0000_0000_0000u64
        } else {
            (-delta) as u64
        };
        base.checked_sub(back)
    }
}

} // verus!
