use reserved_put::codec::bitmap_from_values;
use reserved_put::reserved::{
    commit_assumed, commit_reserved, fill_encoded, fill_serialized, put_value_codec, put_value_reserved,
    put_value_reserved_alloc, put_value_reserved_uninit, put_value_reserved_fill_zeroes,
    put_value_reserved_zeroed, reserve,
    PutError,
};
use reserved_put::writer::WriterError;
use reserved_put::RoaringBitmapCodec;
use roaring::RoaringBitmap;

fn seeded_values(seed: u64, count: usize) -> Vec<u32> {
    let mut rng = fastrand::Rng::with_seed(seed);
    (0..count).map(|_| rng.u32(..)).collect()
}

#[test]
fn three_strategies_commit_identical_bytes() {
    let b = bitmap_from_values(&[0, 17, 65_536, 1 << 31, u32::MAX]);
    let encoded = RoaringBitmapCodec::bytes_encode(&b).unwrap();
    assert_eq!(put_value_codec(&b).unwrap(), encoded);
    assert_eq!(put_value_reserved(&b).unwrap(), encoded);
    assert_eq!(put_value_reserved_alloc(&b).unwrap(), encoded);
    assert_eq!(put_value_reserved_uninit(&b).unwrap(), encoded);
    assert_eq!(put_value_reserved_zeroed(&b).unwrap(), encoded);
    assert_eq!(put_value_reserved_fill_zeroes(&b).unwrap(), encoded);
    assert_eq!(RoaringBitmapCodec::bytes_decode(&encoded).unwrap(), b);
}

#[test]
fn zero_length_reservation_with_no_op_fill_stores_empty_value() {
    let w = reserve(0);
    let value = commit_reserved(w, Ok(())).unwrap();
    assert!(value.is_empty());
    assert!(RoaringBitmapCodec::bytes_decode(&value).unwrap().is_empty());
}

#[test]
fn failed_fill_commits_nothing() {
    let mut w = reserve(4);
    w.write_all(&[1, 2]).unwrap();
    let r = commit_reserved(w, Err(PutError::Write(WriterError::WriteZero)));
    assert_eq!(r, Err(PutError::Write(WriterError::WriteZero)));
}

#[test]
fn fill_error_before_any_write_commits_nothing() {
    let w = reserve(0);
    let r = commit_reserved(w, Err(PutError::Incomplete));
    assert_eq!(r, Err(PutError::Incomplete));
}

#[test]
fn partly_filled_region_is_not_committed() {
    let mut w = reserve(4);
    w.write_all(&[1, 2, 3]).unwrap();
    assert_eq!(commit_reserved(w, Ok(())), Err(PutError::Incomplete));
}

#[test]
fn full_region_is_committed() {
    let mut w = reserve(3);
    w.write_all(&[5, 6, 7]).unwrap();
    assert_eq!(commit_reserved(w, Ok(())), Ok(vec![5, 6, 7]));
}

#[test]
fn fill_encoded_into_too_small_region_overflows() {
    let b = bitmap_from_values(&[1, 2, 3]);
    let size = RoaringBitmapCodec::serialized_size(&b);
    let mut w = reserve(size - 1);
    assert_eq!(fill_encoded(&b, &mut w), Err(PutError::Write(WriterError::WriteZero)));
    assert_eq!(w.written_len(), 0);
}

#[test]
fn fill_encoded_into_exact_region() {
    let b = bitmap_from_values(&[1, 2, 3]);
    let size = RoaringBitmapCodec::serialized_size(&b);
    let mut w = reserve(size);
    assert_eq!(fill_encoded(&b, &mut w), Ok(()));
    assert_eq!(w.remaining(), 0);
    assert_eq!(w.written(), RoaringBitmapCodec::bytes_encode(&b).unwrap().as_slice());
}

#[test]
fn many_keys_share_one_seeded_bitmap() {
    let values = seeded_values(42, 10_000);
    let b = bitmap_from_values(&values);
    assert!(b.len() <= 10_000);
    let expected: RoaringBitmap = values.iter().copied().collect();
    assert_eq!(b, expected);
    let encoded = RoaringBitmapCodec::bytes_encode(&b).unwrap();
    for key in (0u32..100_000).step_by(9_973) {
        let value = match key % 6 {
            0 => put_value_codec(&b).unwrap(),
            1 => put_value_reserved(&b).unwrap(),
            2 => put_value_reserved_alloc(&b).unwrap(),
            3 => put_value_reserved_uninit(&b).unwrap(),
            4 => put_value_reserved_fill_zeroes(&b).unwrap(),
            _ => put_value_reserved_zeroed(&b).unwrap(),
        };
        assert_eq!(value, encoded);
        let decoded = RoaringBitmapCodec::bytes_decode(&value).unwrap();
        assert_eq!(decoded, b);
    }
}

#[test]
fn alloc_strategy_commits_encoded_bytes() {
    let b = bitmap_from_values(&[3, 1, 4, 1, 5, 9, 2, 6]);
    let encoded = RoaringBitmapCodec::bytes_encode(&b).unwrap();
    assert_eq!(put_value_reserved_alloc(&b).unwrap(), encoded);
}

#[test]
fn fill_serialized_into_exact_region() {
    let b = bitmap_from_values(&[10, 20, 30, 200_000]);
    let size = RoaringBitmapCodec::serialized_size(&b);
    let mut w = reserve(size);
    assert_eq!(fill_serialized(&b, &mut w), Ok(()));
    assert_eq!(w.remaining(), 0);
    assert_eq!(w.written(), RoaringBitmapCodec::bytes_encode(&b).unwrap().as_slice());
}

#[test]
fn fill_serialized_into_too_small_region_keeps_a_prefix() {
    let b = bitmap_from_values(&[10, 20, 30, 200_000]);
    let encoded = RoaringBitmapCodec::bytes_encode(&b).unwrap();
    let mut w = reserve(encoded.len() - 1);
    assert_eq!(fill_serialized(&b, &mut w), Err(PutError::Write(WriterError::WriteZero)));
    let n = w.written_len();
    assert!(n < encoded.len());
    assert_eq!(w.written(), &encoded[..n]);
    assert_eq!(commit_reserved(w, Err(PutError::Write(WriterError::WriteZero))), Err(PutError::Write(WriterError::WriteZero)));
}

#[test]
fn zeroed_strategy_overwrites_every_zero() {
    let b = bitmap_from_values(&[7, 8, 9]);
    let value = put_value_reserved_zeroed(&b).unwrap();
    assert_eq!(value, RoaringBitmapCodec::bytes_encode(&b).unwrap());
    assert_eq!(value.len(), 8 + 8 + 3 * 2);
    assert_ne!(value[0], 0);
}

#[test]
fn assumed_commit_passes_a_failed_fill_on() {
    let mut w = reserve(4);
    w.write_all(&[1, 2, 3, 4]).unwrap();
    let r = commit_assumed(w, Err(PutError::Write(WriterError::WriteZero)), 4);
    assert_eq!(r, Err(PutError::Write(WriterError::WriteZero)));
}

#[test]
fn assumed_commit_takes_exactly_the_declared_bytes() {
    let mut w = reserve(5);
    w.write_all(&[1, 2, 3, 4]).unwrap();
    assert_eq!(commit_assumed(w, Ok(()), 2), Ok(vec![1, 2]));
}

#[test]
fn assumed_commit_refuses_more_than_was_written() {
    let mut w = reserve(5);
    w.write_all(&[1, 2]).unwrap();
    assert_eq!(commit_assumed(w, Ok(()), 3), Err(PutError::Incomplete));
}

#[test]
fn fill_zeroes_strategy_keeps_no_zero_tail() {
    let b = bitmap_from_values(&[40_000, 40_001]);
    let value = put_value_reserved_fill_zeroes(&b).unwrap();
    assert_eq!(value, RoaringBitmapCodec::bytes_encode(&b).unwrap());
    assert_eq!(*value.last().unwrap(), 0x9c);
}
