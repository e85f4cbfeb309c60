//! The compressed integer-set codec: a `roaring::RoaringBitmap` to and from
//! the standard Roaring byte layout.
//!
//! The bitmap is held as `roaring`'s own type. Two names describe it: the set
//! of integers it holds, and the bytes that `roaring` serializes it to. The
//! codec's contracts are stated over those names.
use crate::writer::{write_spec, UninitWriter};
use roaring::RoaringBitmap;
use vstd::prelude::*;

verus! {

#[verifier::external_type_specification]
#[verifier::external_body]
pub struct ExRoaringBitmap(RoaringBitmap);

#[verifier::external_type_specification]
#[verifier::external_body]
pub struct ExIoError(std::io::Error);

/// The integers that a bitmap holds.
pub uninterp spec fn members(b: RoaringBitmap) -> Set<u32>;

/// The bytes of a bitmap in the standard Roaring layout, as `roaring` writes
/// them for its current containers.
pub uninterp spec fn serialized_of(b: RoaringBitmap) -> Seq<u8>;

/// `roaring`'s own invariants hold of the bitmap, and it has no run
/// containers: one non-empty container per high 16 bits, keys strictly
/// increasing, array containers sorted without repeats and holding at most
/// 4096 values, bitmap containers holding more, with a count that matches
/// their bits. Every bitmap built through `new` and `insert` is so. Its
/// containers, and so its serialized form, follow from its members alone.
pub uninterp spec fn well_formed(b: RoaringBitmap) -> bool;

/// `bytes` is the serialized form of some well-formed bitmap.
pub open spec fn is_encoding(bytes: Seq<u8>) -> bool {
    exists|b: RoaringBitmap| well_formed(b) && #[trigger] serialized_of(b) == bytes
}

/// What decoding `bytes` may return: the empty input is the empty set; the
/// serialized form of a well-formed bitmap comes back with the same members;
/// any other outcome is `CorruptData`; and a bitmap decoded from non-empty
/// input re-encodes to exactly that input, so trailing or stray bytes are
/// refused.
pub open spec fn decoded_from(bytes: Seq<u8>, r: Result<RoaringBitmap, CodecError>) -> bool {
    &&& bytes.len() == 0 ==> r is Ok && members(r->Ok_0) == Set::<u32>::empty()
    &&& bytes.len() > 0 && r is Ok ==> serialized_of(r->Ok_0) == bytes
    &&& r is Err ==> r->Err_0 == CodecError::CorruptData
    &&& bytes.len() > 0 ==> forall|b: RoaringBitmap|
        well_formed(b) && #[trigger] serialized_of(b) == bytes ==> r is Ok && members(r->Ok_0)
            == members(b)
}

/// Relies on `RoaringBitmap::new`: an empty bitmap.
#[verifier::external_body]
fn bitmap_new() -> (r: RoaringBitmap)
    ensures
        members(r) == Set::<u32>::empty(),
        well_formed(r),
{
    RoaringBitmap::new()
}

/// Relies on `RoaringBitmap::insert`: adds `value`, and reports whether it was
/// absent before.
#[verifier::external_body]
fn bitmap_insert(b: &mut RoaringBitmap, value: u32) -> (r: bool)
    ensures
        members(*final(b)) == members(*old(b)).insert(value),
        r == !members(*old(b)).contains(value),
        well_formed(*old(b)) ==> well_formed(*final(b)),
{
    b.insert(value)
}

/// Relies on `RoaringBitmap::serialized_size`: the exact length of what
/// `serialize_into` writes, which always starts with a 4-byte cookie.
#[verifier::external_body]
fn bitmap_serialized_size(b: &RoaringBitmap) -> (r: usize)
    ensures
        r == serialized_of(*b).len(),
        r >= 4,
{
    b.serialized_size()
}

/// Relies on `RoaringBitmap::serialize_into` with a `Vec<u8>` sink: the
/// serialized bytes are appended, and writing to a vector does not fail. The
/// bytes of a well-formed bitmap are those of every well-formed bitmap with
/// the same members, since its containers follow from them.
#[verifier::external_body]
fn bitmap_serialize_into_vec(b: &RoaringBitmap, out: &mut Vec<u8>) -> (r: Result<(), std::io::Error>)
    ensures
        r is Ok,
        final(out)@ == old(out)@ + serialized_of(*b),
        forall|a: RoaringBitmap|
            well_formed(a) && well_formed(*b) && #[trigger] members(a) == members(*b)
                ==> final(out)@ == old(out)@ + serialized_of(a),
{
    b.serialize_into(out)
}

/// Relies on `RoaringBitmap::serialize_into` with the bounded writer as sink:
/// the serialized bytes are handed over in order, each piece through
/// `write_all`, and the first piece the writer rejects ends serialization with
/// its error. So the bytes are accepted whole when they fit; otherwise a
/// prefix of them is, and an error comes back.
#[verifier::external_body]
pub(crate) fn bitmap_serialize_into_writer(b: &RoaringBitmap, w: &mut UninitWriter) -> (r: Result<(), std::io::Error>)
    requires
        old(w).wf(),
    ensures
        final(w).wf(),
        final(w)@.size == old(w)@.size,
        match write_spec(old(w)@, serialized_of(*b)) {
            Some(next) => r is Ok && final(w)@ == next,
            None => r is Err
                && old(w)@.written.len() <= final(w)@.written.len()
                && final(w)@.written == (old(w)@.written + serialized_of(*b)).take(
                    final(w)@.written.len() as int,
                ),
        },
{
    b.serialize_into(w)
}

/// Relies on `RoaringBitmap::serialize_into` with a `&mut [u8]` sink, which
/// std's `Write` fills from the front: bytes that fit overwrite the front of
/// `out` and the rest of it is kept; bytes that do not fit give an error.
/// The slice's length never changes.
#[verifier::external_body]
pub(crate) fn bitmap_serialize_into_slice(b: &RoaringBitmap, out: &mut [u8]) -> (r: Result<(), std::io::Error>)
    ensures
        final(out)@.len() == old(out)@.len(),
        serialized_of(*b).len() <= old(out)@.len() ==> r is Ok && final(out)@ == serialized_of(*b)
            + old(out)@.skip(serialized_of(*b).len() as int),
        serialized_of(*b).len() > old(out)@.len() ==> r is Err,
{
    b.serialize_into(&mut *out)
}

/// Relies on `RoaringBitmap::deserialize_from`: the serialized form of a
/// well-formed bitmap is read back into the same containers, so with the same
/// integers and the same serialized form. Other input may be refused.
#[verifier::external_body]
fn bitmap_deserialize_from(bytes: &[u8]) -> (r: Result<RoaringBitmap, std::io::Error>)
    ensures
        forall|b: RoaringBitmap|
            well_formed(b) && #[trigger] serialized_of(b) == bytes@ ==> r is Ok && members(
                r->Ok_0,
            ) == members(b) && serialized_of(r->Ok_0) == bytes@,
{
    RoaringBitmap::deserialize_from(bytes)
}

/// Relies on `RoaringBitmap::deserialize_unchecked_from`: on the serialized
/// form of a well-formed bitmap its skipped checks would all pass, so it
/// reads it back as `deserialize_from` does. On other input it may panic.
#[verifier::external_body]
fn bitmap_deserialize_unchecked_from(bytes: &[u8]) -> (r: Result<RoaringBitmap, std::io::Error>)
    requires
        is_encoding(bytes@),
    ensures
        forall|b: RoaringBitmap|
            well_formed(b) && #[trigger] serialized_of(b) == bytes@ ==> r is Ok && members(
                r->Ok_0,
            ) == members(b) && serialized_of(r->Ok_0) == bytes@,
{
    RoaringBitmap::deserialize_unchecked_from(bytes)
}

/// Why the codec failed.
#[derive(Debug, Clone, Copy, PartialEq, Eq, Structural)]
pub enum CodecError {
    /// The bitmap could not be written out.
    Serialization,
    /// The bytes are not the serialized form of a bitmap.
    CorruptData,
}

/// The bitmap holding exactly the integers of `values`; repeated values
/// collapse into one.
pub fn bitmap_from_values(values: &[u32]) -> (r: RoaringBitmap)
    ensures
        members(r) == values@.to_set(),
        well_formed(r),
{
    let mut b = bitmap_new();
    let mut i: usize = 0;
    while i < values.len()
        invariant
            i <= values@.len(),
            members(b) == values@.take(i as int).to_set(),
            well_formed(b),
        decreases values@.len() - i,
    {
        bitmap_insert(&mut b, values[i]);
        proof {
            let before = values@.take(i as int);
            assert(values@.take(i + 1) =~= before.push(values@[i as int]));
            before.lemma_push_to_set_commute(values@[i as int]);
        }
        i = i + 1;
    }
    assert(values@.take(values@.len() as int) =~= values@);
    b
}

/// The codec that stores a compressed integer set as a value.
pub struct RoaringBitmapCodec;

impl RoaringBitmapCodec {
    /// The exact number of bytes that `bytes_encode` produces for `item`,
    /// computed without serializing it.
    pub fn serialized_size(item: &RoaringBitmap) -> (r: usize)
        ensures
            r == serialized_of(*item).len(),
    {
        bitmap_serialized_size(item)
    }

    /// The serialized form of `item`, in a buffer allocated at its exact size.
    /// For well-formed bitmaps it depends on the members alone, not on the
    /// order in which they were inserted.
    pub fn bytes_encode(item: &RoaringBitmap) -> (r: Result<Vec<u8>, CodecError>)
        ensures
            r is Ok,
            r->Ok_0@ == serialized_of(*item),
            r->Ok_0@.len() == serialized_of(*item).len(),
            forall|a: RoaringBitmap|
                well_formed(a) && well_formed(*item) && #[trigger] members(a) == members(*item)
                    ==> r->Ok_0@ == serialized_of(a),
    {
        let size = bitmap_serialized_size(item);
        let mut bytes: Vec<u8> = Vec::with_capacity(size);
        match bitmap_serialize_into_vec(item, &mut bytes) {
            Ok(()) => {
                assert(bytes@ =~= serialized_of(*item));
                assert forall|a: RoaringBitmap|
                    well_formed(a) && well_formed(*item) && #[trigger] members(a) == members(
                        *item,
                    ) implies bytes@ == serialized_of(a) by {
                    assert(Seq::<u8>::empty() + serialized_of(a) =~= serialized_of(a));
                }
                Ok(bytes)
            },
            Err(_) => Err(CodecError::Serialization),
        }
    }

    /// Decodes `bytes`, validating them: the empty value is the empty set,
    /// and anything else must be exactly the serialized form of the bitmap
    /// it decodes to, else it is `CorruptData`.
    pub fn bytes_decode(bytes: &[u8]) -> (r: Result<RoaringBitmap, CodecError>)
        ensures
            decoded_from(bytes@, r),
    {
        if bytes.len() == 0 {
            return Ok(bitmap_new());
        }
        let decoded = match bitmap_deserialize_from(bytes) {
            Ok(b) => b,
            Err(_) => return Err(CodecError::CorruptData),
        };
        let again = match RoaringBitmapCodec::bytes_encode(&decoded) {
            Ok(again) => again,
            Err(_) => return Err(CodecError::CorruptData),
        };
        if slices_equal(again.as_slice(), bytes) {
            Ok(decoded)
        } else {
            Err(CodecError::CorruptData)
        }
    }

    /// Decodes `bytes` without validating them, trading the checks for
    /// speed; the caller vouches that they are the serialized form of a
    /// well-formed bitmap.
    pub fn bytes_decode_unchecked(bytes: &[u8]) -> (r: Result<RoaringBitmap, CodecError>)
        requires
            is_encoding(bytes@),
        ensures
            r is Ok,
            decoded_from(bytes@, r),
    {
        if bytes.len() == 0 {
            return Ok(bitmap_new());
        }
        let r = bitmap_deserialize_unchecked_from(bytes);
        proof {
            let w = choose|b: RoaringBitmap| well_formed(b) && #[trigger] serialized_of(b) == bytes@;
            assert(well_formed(w) && serialized_of(w) == bytes@);
        }
        match r {
            Ok(b) => Ok(b),
            Err(_) => Err(CodecError::CorruptData),
        }
    }
}

/// Whether `a` and `b` hold the same bytes.
fn slices_equal(a: &[u8], b: &[u8]) -> (r: bool)
    ensures
        r == (a@ == b@),
{
    if a.len() != b.len() {
        return false;
    }
    let mut i: usize = 0;
    while i < a.len()
        invariant
            i <= a@.len(),
            a@.len() == b@.len(),
            a@.take(i as int) == b@.take(i as int),
        decreases a@.len() - i,
    {
        if a[i] != b[i] {
            assert(a@[i as int] != b@[i as int]);
            return false;
        }
        assert(a@.take(i + 1) =~= a@.take(i as int).push(a@[i as int]));
        assert(b@.take(i + 1) =~= b@.take(i as int).push(b@[i as int]));
        i = i + 1;
    }
    assert(a@ =~= a@.take(i as int));
    assert(b@ =~= b@.take(i as int));
    true
}

/// A bitmap built from a list of integers holds at most as many integers as
/// the list, fewer when some repeat.
pub proof fn from_values_cardinality(values: Seq<u32>)
    ensures
        values.to_set().len() <= values.len(),
{
    values.lemma_cardinality_of_set();
}

/// Decoding what encoding produced gives back a bitmap with the same members,
/// and encoding that bitmap again gives back the same bytes.
pub proof fn round_trip(v: RoaringBitmap, r: Result<RoaringBitmap, CodecError>)
    requires
        well_formed(v),
        serialized_of(v).len() > 0,
        decoded_from(serialized_of(v), r),
    ensures
        r is Ok,
        members(r->Ok_0) == members(v),
        serialized_of(r->Ok_0) == serialized_of(v),
{
}

} // verus!
