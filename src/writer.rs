//! A bounded, append-only writer over a region of `size` byte slots that hold
//! no meaningful value yet.
//!
//! The region is represented by a buffer whose length is the number of bytes
//! written so far and whose remaining slots are not part of any value: a byte
//! that was never written cannot be read, because it does not exist in the
//! view. Writes go strictly forward; a chunk that does not fit is rejected
//! whole, so the written part never has gaps and is never truncated.
use vstd::prelude::*;

verus! {

/// What a writer is, mathematically: the bytes written so far, in order, and
/// the length of the region it was built over.
pub struct WriterView {
    pub written: Seq<u8>,
    pub size: nat,
}

/// The only error of the writer: a chunk would run past the end of the region.
#[derive(Debug, Clone, Copy, PartialEq, Eq, Structural)]
pub enum WriterError {
    WriteZero,
}

/// The state after writing `buf` to a writer in state `w`, or `None` when the
/// chunk does not fit (the writer then stays as it was).
pub open spec fn write_spec(w: WriterView, buf: Seq<u8>) -> Option<WriterView> {
    if w.written.len() + buf.len() <= w.size {
        Some(WriterView { written: w.written + buf, size: w.size })
    } else {
        None
    }
}

/// Writes `chunks` one after another, stopping at the first one that does not
/// fit. Returns the final state and whether every chunk was accepted.
pub open spec fn write_chunks_spec(w: WriterView, chunks: Seq<Seq<u8>>) -> (WriterView, bool)
    decreases chunks.len(),
{
    if chunks.len() == 0 {
        (w, true)
    } else {
        match write_spec(w, chunks[0]) {
            Some(next) => write_chunks_spec(next, chunks.drop_first()),
            None => (w, false),
        }
    }
}

/// The concatenation of `chunks`.
pub open spec fn concat(chunks: Seq<Seq<u8>>) -> Seq<u8>
    decreases chunks.len(),
{
    if chunks.len() == 0 {
        Seq::empty()
    } else {
        chunks[0] + concat(chunks.drop_first())
    }
}

/// The value committed when the producer declares the first `n` bytes valid.
pub open spec fn assume_written_spec(w: WriterView, n: nat) -> Seq<u8> {
    w.written.take(n as int)
}

pub struct UninitWriter {
    buf: Vec<u8>,
    size: usize,
}

impl View for UninitWriter {
    type V = WriterView;

    closed spec fn view(&self) -> WriterView {
        WriterView { written: self.buf@, size: self.size as nat }
    }
}

impl UninitWriter {
    /// The writer's invariant: it never holds more bytes than its region.
    pub open spec fn wf(&self) -> bool {
        self@.written.len() <= self@.size
    }

    /// A writer over `size` slots, none of them written.
    pub fn new(size: usize) -> (w: UninitWriter)
        ensures
            w.wf(),
            w@.written == Seq::<u8>::empty(),
            w@.size == size,
    {
        UninitWriter { buf: Vec::with_capacity(size), size }
    }

    /// The length of the region.
    pub fn size(&self) -> (r: usize)
        ensures
            r == self@.size,
    {
        self.size
    }

    /// How many bytes have been written.
    pub fn written_len(&self) -> (r: usize)
        requires
            self.wf(),
        ensures
            r == self@.written.len(),
            r <= self@.size,
    {
        self.buf.len()
    }

    /// How many slots are left to write.
    pub fn remaining(&self) -> (r: usize)
        requires
            self.wf(),
        ensures
            r == self@.size - self@.written.len(),
    {
        self.size - self.buf.len()
    }

    /// The bytes written so far; the unwritten slots are never part of it.
    pub fn written(&self) -> (r: &[u8])
        ensures
            r@ == self@.written,
    {
        self.buf.as_slice()
    }

    /// Copies `buf` after the bytes already written, or rejects it whole with
    /// `WriteZero` when it does not fit; never a partial write.
    pub fn write_all(&mut self, buf: &[u8]) -> (r: Result<(), WriterError>)
        requires
            old(self).wf(),
        ensures
            final(self).wf(),
            match write_spec(old(self)@, buf@) {
                Some(next) => r == Ok::<(), WriterError>(()) && final(self)@ == next,
                None => r == Err::<(), WriterError>(WriterError::WriteZero) && final(self)@ == old(self)@,
            },
    {
        if buf.len() > self.size - self.buf.len() {
            return Err(WriterError::WriteZero);
        }
        let ghost start = self.buf@;
        let mut i: usize = 0;
        while i < buf.len()
            invariant
                i <= buf@.len(),
                self.size == old(self).size,
                start == old(self)@.written,
                start.len() + buf@.len() <= self.size,
                self.buf@ == start + buf@.take(i as int),
            decreases buf@.len() - i,
        {
            self.buf.push(buf[i]);
            i = i + 1;
            assert(buf@.take(i as int) == buf@.take((i - 1) as int).push(buf@[i - 1]));
        }
        assert(buf@.take(i as int) == buf@);
        Ok(())
    }

    /// As `write_all`, reporting the number of bytes accepted: always the
    /// whole chunk, never a short write.
    pub fn write(&mut self, buf: &[u8]) -> (r: Result<usize, WriterError>)
        requires
            old(self).wf(),
        ensures
            final(self).wf(),
            match write_spec(old(self)@, buf@) {
                Some(next) => r == Ok::<usize, WriterError>(buf@.len() as usize) && final(self)@ == next,
                None => r == Err::<usize, WriterError>(WriterError::WriteZero) && final(self)@ == old(self)@,
            },
    {
        match self.write_all(buf) {
            Ok(()) => Ok(buf.len()),
            Err(e) => Err(e),
        }
    }

    /// Nothing is buffered, so there is nothing to flush.
    pub fn flush(&mut self) -> (r: Result<(), WriterError>)
        ensures
            r == Ok::<(), WriterError>(()),
            final(self)@ == old(self)@,
            final(self).wf() == old(self).wf(),
    {
        Ok(())
    }

    /// Fills every slot that is left with zero bytes.
    pub fn fill_zeroes(&mut self)
        requires
            old(self).wf(),
        ensures
            final(self).wf(),
            final(self)@.size == old(self)@.size,
            final(self)@.written == old(self)@.written + Seq::new(
                (old(self)@.size - old(self)@.written.len()) as nat,
                |i: int| 0u8,
            ),
    {
        let ghost start = self.buf@;
        while self.buf.len() < self.size
            invariant
                self.size == old(self).size,
                start == old(self)@.written,
                start.len() <= self.buf@.len() <= self.size,
                self.buf@ == start + Seq::new((self.buf@.len() - start.len()) as nat, |i: int| 0u8),
            decreases self.size - self.buf@.len(),
        {
            let ghost k = (self.buf@.len() - start.len()) as nat;
            self.buf.push(0u8);
            assert(Seq::new(k + 1, |i: int| 0u8) =~= Seq::new(k, |i: int| 0u8).push(0u8));
            assert(self.buf@ =~= start + Seq::new(k + 1, |i: int| 0u8));
        }
    }

    /// Declares the first `n` written bytes as the value and gives them up.
    /// Exactly `n` bytes are committed, whatever else was written.
    pub fn assume_written(self, n: usize) -> (r: Vec<u8>)
        requires
            self.wf(),
            n <= self@.written.len(),
        ensures
            r@ == assume_written_spec(self@, n as nat),
            r@.len() == n,
    {
        let mut buf = self.buf;
        buf.truncate(n);
        buf
    }

    /// Gives up every written byte as the value.
    pub fn into_written(self) -> (r: Vec<u8>)
        ensures
            r@ == self@.written,
    {
        self.buf
    }
}

/// Relies on `std::io::Error::from(ErrorKind::WriteZero)`: an I/O error of
/// that kind.
#[verifier::external_body]
fn write_zero_error() -> (r: std::io::Error)
{
    std::io::Error::from(std::io::ErrorKind::WriteZero)
}

// A trait method cannot require the invariant, so it is tested here; the
// writer's own methods always keep it.
impl std::io::Write for UninitWriter {
    fn write(&mut self, buf: &[u8]) -> std::io::Result<usize> {
        match std::io::Write::write_all(self, buf) {
            Ok(()) => Ok(buf.len()),
            Err(e) => Err(e),
        }
    }

    fn write_all(&mut self, buf: &[u8]) -> std::io::Result<()> {
        if self.buf.len() > self.size {
            return Err(write_zero_error());
        }
        match UninitWriter::write_all(self, buf) {
            Ok(()) => Ok(()),
            Err(_) => Err(write_zero_error()),
        }
    }

    fn flush(&mut self) -> std::io::Result<()> {
        Ok(())
    }
}

/// Writing a sequence of chunks that does not fit in the region fails, and
/// leaves the writer holding what it held before the offending chunk: the
/// old bytes, followed by a prefix of the chunks' bytes, within the region.
pub proof fn writer_overflow_rejection(w: WriterView, chunks: Seq<Seq<u8>>)
    requires
        w.written.len() <= w.size,
        w.written.len() + concat(chunks).len() > w.size,
    ensures
        !write_chunks_spec(w, chunks).1,
        write_chunks_spec(w, chunks).0.size == w.size,
        write_chunks_spec(w, chunks).0.written.len() <= w.size,
        (w.written + concat(chunks)).take(write_chunks_spec(w, chunks).0.written.len() as int)
            == write_chunks_spec(w, chunks).0.written,
        w.written.len() <= write_chunks_spec(w, chunks).0.written.len(),
        write_chunks_spec(w, chunks).0.written.take(w.written.len() as int) == w.written,
    decreases chunks.len(),
{
    let rest = chunks.drop_first();
    assert(chunks.len() > 0);
    match write_spec(w, chunks[0]) {
        Some(next) => {
            assert(w.written + concat(chunks) == next.written + concat(rest));
            writer_overflow_rejection(next, rest);
            let fin = write_chunks_spec(next, rest).0;
            assert(fin.written.take(next.written.len() as int) == next.written);
            assert(fin.written.take(w.written.len() as int) == next.written.take(
                w.written.len() as int,
            ));
            assert(next.written.take(w.written.len() as int) == w.written);
        },
        None => {
            assert((w.written + concat(chunks)).take(w.written.len() as int) == w.written);
            assert(w.written.take(w.written.len() as int) == w.written);
        },
    }
}

/// Writing chunks that fit in the region accepts all of them, and the writer
/// then holds the old bytes followed by their concatenation.
pub proof fn writer_accepts_what_fits(w: WriterView, chunks: Seq<Seq<u8>>)
    requires
        w.written.len() + concat(chunks).len() <= w.size,
    ensures
        write_chunks_spec(w, chunks).1,
        write_chunks_spec(w, chunks).0 == (WriterView { written: w.written + concat(chunks), size: w.size }),
    decreases chunks.len(),
{
    if chunks.len() == 0 {
        assert(w.written + concat(chunks) == w.written);
    } else {
        let rest = chunks.drop_first();
        let next = WriterView { written: w.written + chunks[0], size: w.size };
        assert(write_spec(w, chunks[0]) == Some(next));
        writer_accepts_what_fits(next, rest);
        assert(next.written + concat(rest) == w.written + concat(chunks));
    }
}

/// Only the declared bytes are ever committed: declaring `n` bytes commits
/// exactly the first `n` bytes written, never the tail beyond them.
pub proof fn no_uninitialized_exposure(w: WriterView, n: nat)
    requires
        n <= w.written.len(),
    ensures
        assume_written_spec(w, n).len() == n,
        forall|i: int| 0 <= i < n ==> #[trigger] assume_written_spec(w, n)[i] == w.written[i],
{
}

} // verus!
