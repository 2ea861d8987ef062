use polarust::model::GpsPoint;
use polarust::track::sort_track;

fn p(t: i64, tag: u64) -> GpsPoint {
    GpsPoint { lat_bits: tag, lon_bits: 0, timestamp: t }
}

#[test]
fn track_sorted_by_time() {
    let sorted = sort_track(vec![p(30, 1), p(10, 2), p(20, 3)]);
    let times: Vec<i64> = sorted.iter().map(|q| q.timestamp).collect();
    assert_eq!(times, vec![10, 20, 30]);
    assert_eq!(sorted[0].lat_bits, 2);
}

#[test]
fn track_sort_is_stable() {
    let sorted = sort_track(vec![p(5, 1), p(1, 2), p(5, 3), p(1, 4), p(i64::MIN, 5), p(i64::MAX, 6)]);
    let tags: Vec<u64> = sorted.iter().map(|q| q.lat_bits).collect();
    assert_eq!(tags, vec![5, 2, 4, 1, 3, 6]);
}

#[test]
fn track_order_law_unique() {
    let points = vec![p(2, 1), p(2, 2), p(1, 3)];
    let a: Vec<u64> = sort_track(points.clone()).iter().map(|q| q.lat_bits).collect();
    let b: Vec<u64> = sort_track(points).iter().map(|q| q.lat_bits).collect();
    assert_eq!(a, b);
    assert_eq!(a, vec![3, 1, 2]);
}

#[test]
fn empty_track() {
    assert!(sort_track(vec![]).is_empty());
}
