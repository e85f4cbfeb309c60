//! The reserved-buffer write path: reserve a region of exactly the value's
//! length, fill it, and commit it as the value only when the fill succeeded
//! and every byte of the region was written.
//!
//! The strategies below produce the value that a write commits for a bitmap:
//! serializing into a fresh buffer; streaming into a reserved region;
//! copying an encoded buffer into a reserved region; streaming into a region
//! and then declaring its length; zero-filling a region and serializing over
//! it. Each of them commits exactly the serialized form of the bitmap.
use crate::codec::{
    bitmap_serialize_into_slice, bitmap_serialize_into_writer, serialized_of, CodecError,
    RoaringBitmapCodec,
};
use crate::writer::{assume_written_spec, write_spec, UninitWriter, WriterError, WriterView};
use roaring::RoaringBitmap;
use vstd::prelude::*;

verus! {

/// Why a write produced no value.
#[derive(Debug, Clone, Copy, PartialEq, Eq, Structural)]
pub enum PutError {
    /// Encoding the value failed.
    Codec(CodecError),
    /// The fill routine wrote past the end of the region.
    Write(WriterError),
    /// The fill routine succeeded but left part of the region unwritten.
    Incomplete,
}

/// What committing a region yields, given the writer's final state and how
/// its fill routine ended.
pub open spec fn commit_spec(w: WriterView, fill: Result<(), PutError>) -> Result<Seq<u8>, PutError> {
    match fill {
        Err(e) => Err(e),
        Ok(()) => if w.written.len() == w.size {
            Ok(w.written)
        } else {
            Err(PutError::Incomplete)
        },
    }
}

/// A region of exactly `size` slots, none of them written.
pub fn reserve(size: usize) -> (w: UninitWriter)
    ensures
        w.wf(),
        w@ == (WriterView { written: Seq::empty(), size: size as nat }),
{
    UninitWriter::new(size)
}

/// Commits the region filled through `w`. A failed fill commits nothing and
/// its error is passed on unchanged; a region with unwritten slots commits
/// nothing either; otherwise the value is exactly the bytes written.
pub fn commit_reserved(w: UninitWriter, fill: Result<(), PutError>) -> (r: Result<Vec<u8>, PutError>)
    requires
        w.wf(),
    ensures
        match commit_spec(w@, fill) {
            Ok(value) => r is Ok && r->Ok_0@ == value,
            Err(e) => r == Err::<Vec<u8>, PutError>(e),
        },
{
    match fill {
        Err(e) => Err(e),
        Ok(()) => {
            if w.remaining() == 0 {
                Ok(w.into_written())
            } else {
                Err(PutError::Incomplete)
            }
        },
    }
}

/// What committing a region yields when the producer declares its first `n`
/// bytes written, given how its fill routine ended.
pub open spec fn commit_assumed_spec(w: WriterView, fill: Result<(), PutError>, n: nat) -> Result<
    Seq<u8>,
    PutError,
> {
    match fill {
        Err(e) => Err(e),
        Ok(()) => if n <= w.written.len() {
            Ok(assume_written_spec(w, n))
        } else {
            Err(PutError::Incomplete)
        },
    }
}

/// Commits the region filled through `w` as its first `n` bytes. A failed
/// fill commits nothing and its error is passed on unchanged; a declaration
/// of more bytes than were written is refused with `Incomplete`, so no
/// unwritten byte is ever committed.
pub fn commit_assumed(w: UninitWriter, fill: Result<(), PutError>, n: usize) -> (r: Result<Vec<u8>, PutError>)
    requires
        w.wf(),
    ensures
        match commit_assumed_spec(w@, fill, n as nat) {
            Ok(value) => r is Ok && r->Ok_0@ == value,
            Err(e) => r == Err::<Vec<u8>, PutError>(e),
        },
{
    match fill {
        Err(e) => Err(e),
        Ok(()) => {
            if w.written_len() < n {
                Err(PutError::Incomplete)
            } else {
                Ok(w.assume_written(n))
            }
        },
    }
}

/// Fills `w` with the serialized form of `item`, streamed straight into the
/// region with no buffer in between. When it does not fit, the fill fails
/// with `WriteZero` after writing a prefix of it.
pub fn fill_serialized(item: &RoaringBitmap, w: &mut UninitWriter) -> (r: Result<(), PutError>)
    requires
        old(w).wf(),
    ensures
        final(w).wf(),
        final(w)@.size == old(w)@.size,
        match write_spec(old(w)@, serialized_of(*item)) {
            Some(next) => r == Ok::<(), PutError>(()) && final(w)@ == next,
            None => r == Err::<(), PutError>(PutError::Write(WriterError::WriteZero))
                && old(w)@.written.len() <= final(w)@.written.len()
                && final(w)@.written == (old(w)@.written + serialized_of(*item)).take(
                    final(w)@.written.len() as int,
                ),
        },
{
    match bitmap_serialize_into_writer(item, w) {
        Ok(()) => Ok(()),
        Err(_) => Err(PutError::Write(WriterError::WriteZero)),
    }
}

/// Fills `w` with the serialized form of `item`, encoded first into a buffer
/// of its own and then copied in one chunk.
pub fn fill_encoded(item: &RoaringBitmap, w: &mut UninitWriter) -> (r: Result<(), PutError>)
    requires
        old(w).wf(),
    ensures
        final(w).wf(),
        match write_spec(old(w)@, serialized_of(*item)) {
            Some(next) => r == Ok::<(), PutError>(()) && final(w)@ == next,
            None => r == Err::<(), PutError>(PutError::Write(WriterError::WriteZero))
                && final(w)@ == old(w)@,
        },
{
    let bytes = match RoaringBitmapCodec::bytes_encode(item) {
        Ok(bytes) => bytes,
        Err(e) => return Err(PutError::Codec(e)),
    };
    match w.write_all(bytes.as_slice()) {
        Ok(()) => Ok(()),
        Err(e) => Err(PutError::Write(e)),
    }
}

/// The value committed by a plain write: `item` serialized into a fresh
/// buffer.
pub fn put_value_codec(item: &RoaringBitmap) -> (r: Result<Vec<u8>, PutError>)
    ensures
        r is Ok,
        r->Ok_0@ == serialized_of(*item),
{
    match RoaringBitmapCodec::bytes_encode(item) {
        Ok(bytes) => Ok(bytes),
        Err(e) => Err(PutError::Codec(e)),
    }
}

/// The value committed by a reserved write: a region of the announced size,
/// with the value streamed into it and committed once full.
pub fn put_value_reserved(item: &RoaringBitmap) -> (r: Result<Vec<u8>, PutError>)
    ensures
        r is Ok,
        r->Ok_0@ == serialized_of(*item),
{
    let size = RoaringBitmapCodec::serialized_size(item);
    let mut w = reserve(size);
    let fill = fill_serialized(item, &mut w);
    assert(serialized_of(*item) =~= Seq::<u8>::empty() + serialized_of(*item));
    commit_reserved(w, fill)
}

/// The value committed by a reserved write that encodes into a buffer of its
/// own first and copies that buffer into the region.
pub fn put_value_reserved_alloc(item: &RoaringBitmap) -> (r: Result<Vec<u8>, PutError>)
    ensures
        r is Ok,
        r->Ok_0@ == serialized_of(*item),
{
    let size = RoaringBitmapCodec::serialized_size(item);
    let mut w = reserve(size);
    let fill = fill_encoded(item, &mut w);
    assert(serialized_of(*item) =~= Seq::<u8>::empty() + serialized_of(*item));
    commit_reserved(w, fill)
}

/// The value committed by a reserved write whose producer declares the
/// number of bytes it wrote: the announced size, checked against what the
/// writer actually holds before the declaration is made.
pub fn put_value_reserved_uninit(item: &RoaringBitmap) -> (r: Result<Vec<u8>, PutError>)
    ensures
        r is Ok,
        r->Ok_0@ == serialized_of(*item),
{
    let size = RoaringBitmapCodec::serialized_size(item);
    let mut w = reserve(size);
    let fill = fill_serialized(item, &mut w);
    assert(serialized_of(*item) =~= Seq::<u8>::empty() + serialized_of(*item));
    assert(serialized_of(*item).take(size as int) =~= serialized_of(*item));
    commit_assumed(w, fill, size)
}

/// The value committed by a reserved write that zero-fills the whole region
/// first, so that no byte of it is ever unwritten, and then serializes the
/// value over it from the front.
pub fn put_value_reserved_zeroed(item: &RoaringBitmap) -> (r: Result<Vec<u8>, PutError>)
    ensures
        r is Ok,
        r->Ok_0@ == serialized_of(*item),
{
    let size = RoaringBitmapCodec::serialized_size(item);
    let mut w = reserve(size);
    w.fill_zeroes();
    let mut region = w.into_written();
    match bitmap_serialize_into_slice(item, region.as_mut_slice()) {
        Ok(()) => {
            assert(region@ =~= serialized_of(*item));
            Ok(region)
        },
        Err(_) => Err(PutError::Write(WriterError::WriteZero)),
    }
}

/// The value committed by a reserved write that zero-fills the whole region
/// first and then streams the value through a bounded writer that starts
/// again at the front of the region: the written bytes replace the zeroes
/// they fall on, and the zeroes after them stay.
pub fn put_value_reserved_fill_zeroes(item: &RoaringBitmap) -> (r: Result<Vec<u8>, PutError>)
    ensures
        r is Ok,
        r->Ok_0@ == serialized_of(*item),
{
    let size = RoaringBitmapCodec::serialized_size(item);
    let mut zeroed = reserve(size);
    zeroed.fill_zeroes();
    let mut region = zeroed.into_written();
    let mut w = reserve(size);
    let fill = fill_serialized(item, &mut w);
    assert(serialized_of(*item) =~= Seq::<u8>::empty() + serialized_of(*item));
    match fill {
        Err(e) => Err(e),
        Ok(()) => {
            overlay_front(&mut region, w.written());
            assert(region@ =~= serialized_of(*item));
            Ok(region)
        },
    }
}

/// Replaces the front of `region` with `front`, keeping the rest.
fn overlay_front(region: &mut Vec<u8>, front: &[u8])
    requires
        front@.len() <= old(region)@.len(),
    ensures
        final(region)@ == front@ + old(region)@.skip(front@.len() as int),
{
    let mut i: usize = 0;
    while i < front.len()
        invariant
            i <= front@.len(),
            front@.len() <= old(region)@.len(),
            region@.len() == old(region)@.len(),
            region@ == front@.take(i as int) + old(region)@.skip(i as int),
        decreases front@.len() - i,
    {
        region.set(i, front[i]);
        i = i + 1;
        assert(region@ =~= front@.take(i as int) + old(region)@.skip(i as int));
    }
    assert(front@.take(i as int) =~= front@);
}

/// A region of exactly the value's length, filled with the value and then
/// committed (whole, or by declaring its full length) holds exactly the value:
/// each way of writing commits the same bytes.
pub proof fn reserved_write_equivalence(value: Seq<u8>)
    ensures
        write_spec(WriterView { written: Seq::empty(), size: value.len() }, value) == Some(
            WriterView { written: value, size: value.len() },
        ),
        commit_spec(WriterView { written: value, size: value.len() }, Ok(())) == Ok::<
            Seq<u8>,
            PutError,
        >(value),
        assume_written_spec(WriterView { written: value, size: value.len() }, value.len())
            == value,
{
    assert(Seq::<u8>::empty() + value =~= value);
    assert(value.take(value.len() as int) =~= value);
}

/// A fill routine that fails commits nothing, whatever it wrote before and
/// however many bytes its producer would declare: the write ends with the
/// fill's own error.
pub proof fn failed_fill_commits_nothing(w: WriterView, e: PutError, n: nat)
    ensures
        commit_spec(w, Err(e)) == Err::<Seq<u8>, PutError>(e),
        commit_assumed_spec(w, Err(e), n) == Err::<Seq<u8>, PutError>(e),
{
}

} // verus!
