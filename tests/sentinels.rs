use blawktrust::{
    date_validity, materialize_date_sentinel, materialize_timestamp_sentinel, timestamp_validity,
    NULL_DATE, NULL_TIMESTAMP,
};

#[test]
fn date_sentinels_become_invalid_bits() {
    assert!(date_validity(&[18628, 18629], NULL_DATE).is_none());
    let bm = date_validity(&[18628, NULL_DATE, 18630], NULL_DATE).unwrap();
    assert!(bm.get(0));
    assert!(!bm.get(1));
    assert!(bm.get(2));
}

#[test]
fn timestamp_round_trip_through_bitmap() {
    let data = vec![100i64, NULL_TIMESTAMP, 300, NULL_TIMESTAMP];
    let bm = timestamp_validity(&data, NULL_TIMESTAMP).unwrap();
    assert_eq!(bm.len(), 4);
    let mut out = vec![100i64, 200, 300, 400];
    materialize_timestamp_sentinel(&mut out, &bm, NULL_TIMESTAMP);
    assert_eq!(out, data);
}

#[test]
fn materialize_leaves_valid_dates() {
    let bm = date_validity(&[1, -99999, 3], -99999).unwrap();
    let mut data = vec![10, 20, 30];
    materialize_date_sentinel(&mut data, &bm, -99999);
    assert_eq!(data, vec![10, -99999, 30]);
}
