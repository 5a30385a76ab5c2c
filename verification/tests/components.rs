use cache_sim::line::CacheLine;
use cache_sim::predictor::MultiColumnPredictor;
use cache_sim::victim::VictimBuffer;

#[test]
fn line_first_touch_is_reported_once() {
    let mut line = CacheLine::new(3, 19, 7);
    assert_eq!(line.tag, 3);
    assert_eq!(line.block_address, 19);
    assert_eq!(line.stamp, 7);
    assert!(!line.dirty);
    assert!(line.first_touch_pending);
    assert!(line.mark_hit());
    assert!(!line.mark_hit());
    assert!(!line.first_touch_pending);
}

#[test]
fn victim_buffer_takes_by_block_address() {
    let mut vb = VictimBuffer::new(2);
    vb.insert(CacheLine::new(1, 10, 1), 5);
    vb.insert(CacheLine::new(2, 20, 2), 6);
    assert!(vb.take(30).is_none());
    let got = vb.take(10).expect("block 10 buffered");
    assert_eq!(got.block_address, 10);
    assert_eq!(got.stamp, 5);
    assert!(vb.take(10).is_none());
    assert!(vb.take(20).is_some());
}

#[test]
fn victim_buffer_at_capacity_drops_oldest_stamp() {
    let mut vb = VictimBuffer::new(1);
    vb.insert(CacheLine::new(1, 10, 1), 5);
    vb.insert(CacheLine::new(2, 20, 2), 6);
    assert!(vb.take(10).is_none());
    assert_eq!(vb.take(20).expect("block 20 buffered").stamp, 6);
}

#[test]
fn victim_buffer_of_capacity_zero_ignores_offers() {
    let mut vb = VictimBuffer::new(0);
    vb.insert(CacheLine::new(1, 10, 1), 5);
    assert!(vb.take(10).is_none());
}

#[test]
fn predictor_marks_and_clears_one_bit() {
    // Four sets, four ways: two columns. Block 4 has tag 1, so column 1.
    let mut mp = MultiColumnPredictor::new(4, 4);
    assert_eq!(mp.observe(1, 4), 0);
    mp.mark(1, 4, 2);
    assert_eq!(mp.observe(1, 4), 0b100);
    // A different column and a different set stay clear.
    assert_eq!(mp.observe(1, 0), 0);
    assert_eq!(mp.observe(2, 4), 0);
    mp.mark(1, 4, 0);
    assert_eq!(mp.observe(1, 4), 0b101);
    mp.clear(1, 4, 2);
    assert_eq!(mp.observe(1, 4), 0b001);
}

#[test]
fn predictor_ignores_ways_beyond_vector_width() {
    let mut mp = MultiColumnPredictor::new(2, 64);
    mp.mark(0, 0, 35);
    assert_eq!(mp.observe(0, 0), 0);
    mp.mark(0, 0, 31);
    assert_eq!(mp.observe(0, 0), 1u32 << 31);
    mp.clear(0, 0, 35);
    assert_eq!(mp.observe(0, 0), 1u32 << 31);
}

#[test]
fn predictor_column_count_follows_ways() {
    assert_eq!(MultiColumnPredictor::new(8, 1).columns, 1);
    assert_eq!(MultiColumnPredictor::new(8, 2).columns, 2);
    assert_eq!(MultiColumnPredictor::new(8, 4).columns, 2);
    assert_eq!(MultiColumnPredictor::new(8, 5).columns, 4);
    assert_eq!(MultiColumnPredictor::new(8, 8).columns, 4);
    assert_eq!(MultiColumnPredictor::new(8, 16).columns, 8);
}
