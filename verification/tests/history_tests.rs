use teleplot_core::history::HistoryStore;

fn bits(x: f64) -> u64 {
    x.to_bits()
}

#[test]
fn fresh_store_is_empty() {
    let h = HistoryStore::new(3);
    assert_eq!(h.num_channels(), 3);
    assert_eq!(h.total(), 0);
    assert_eq!(h.retained(), 0);
    assert_eq!(h.x_bounds(), (0, 0));
    assert_eq!(h.channel_samples(0).len(), 0);
}

#[test]
fn append_fills_every_channel_once() {
    let mut h = HistoryStore::new(2);
    h.append(&vec![bits(1.5), bits(-2.5)]);
    h.append(&vec![bits(3.0), bits(4.0)]);
    assert_eq!(h.total(), 2);
    assert_eq!(h.channel_samples(0), &vec![bits(1.5), bits(3.0)]);
    assert_eq!(h.channel_samples(1), &vec![bits(-2.5), bits(4.0)]);
}

#[test]
fn overflow_keeps_latest_512_and_stable_indices() {
    let mut h = HistoryStore::new(1);
    for i in 0..520u64 {
        h.append(&vec![i]);
    }
    assert_eq!(h.total(), 520);
    assert_eq!(h.retained(), 512);
    // oldest evicted first: the 8 samples 0..=7 are gone
    let samples = h.channel_samples(0);
    assert_eq!(samples.len(), 512);
    assert_eq!(samples[0], 8);
    assert_eq!(samples[511], 519);
    // absolute index of the oldest retained sample equals total - capacity
    assert_eq!(h.x_bounds(), (8, 520));
    let points = h.channel_points(0);
    assert_eq!(points.len(), 512);
    assert_eq!(points[0], (8, 8));
    assert_eq!(points[511], (519, 519));
}

#[test]
fn exactly_at_capacity_nothing_is_evicted() {
    let mut h = HistoryStore::new(1);
    for i in 0..512u64 {
        h.append(&vec![i]);
    }
    assert_eq!(h.retained(), 512);
    assert_eq!(h.x_bounds(), (0, 512));
    assert_eq!(h.channel_samples(0)[0], 0);
}

#[test]
fn channel_points_carry_absolute_indices() {
    let mut h = HistoryStore::new(2);
    h.append(&vec![bits(10.0), bits(20.0)]);
    h.append(&vec![bits(11.0), bits(21.0)]);
    let p0 = h.channel_points(0);
    let p1 = h.channel_points(1);
    assert_eq!(p0, vec![(0, bits(10.0)), (1, bits(11.0))]);
    assert_eq!(p1, vec![(0, bits(20.0)), (1, bits(21.0))]);
}
