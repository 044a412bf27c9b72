use aquarium_espresso::trail::{Trail, TRAIL_CAP};

#[test]
fn new_trail_is_empty() {
    let t: Trail<(f32, f32)> = Trail::new((0.0, 0.0));
    assert_eq!(t.len(), 0);
    assert_eq!(t.head(), TRAIL_CAP - 1);
    assert_eq!(t.slot(5), (0.0, 0.0));
}

#[test]
fn push_moves_the_cursor_and_stores_the_point() {
    let mut t: Trail<(f32, f32)> = Trail::new((0.0, 0.0));
    t.push((1.5, -2.0));
    assert_eq!(t.head(), 0);
    assert_eq!(t.len(), 1);
    assert_eq!(t.idx(0), 0);
    assert_eq!(t.slot(t.idx(0)), (1.5, -2.0));
}

#[test]
fn looking_back_reads_older_points() {
    let mut t: Trail<u32> = Trail::new(0);
    for k in 1..=10u32 {
        t.push(k);
    }
    assert_eq!(t.len(), 10);
    for back in 0..10usize {
        assert_eq!(t.slot(t.idx(back)), 10 - back as u32);
    }
}

#[test]
fn full_trail_forgets_the_oldest() {
    let mut t: Trail<u32> = Trail::new(0);
    for k in 0..(TRAIL_CAP as u32 + 5) {
        t.push(k);
    }
    assert_eq!(t.len(), TRAIL_CAP);
    assert_eq!(t.head(), 4);
    assert_eq!(t.slot(t.idx(0)), TRAIL_CAP as u32 + 4);
    assert_eq!(t.slot(t.idx(TRAIL_CAP - 1)), 5);
}

#[test]
fn index_arithmetic_wraps() {
    let mut t: Trail<u8> = Trail::new(0);
    t.push(1);
    t.push(2);
    // cursor on slot 1
    assert_eq!(t.idx(0), 1);
    assert_eq!(t.idx(1), 0);
    assert_eq!(t.idx(2), 127);
    assert_eq!(t.idx(129), 0);
    assert_eq!(t.idx(257), 0);
}

#[test]
fn reading_back_many_pushes() {
    for m in [1usize, 5, 127, 128, 129, 300] {
        let mut t: Trail<usize> = Trail::new(usize::MAX);
        for i in 0..m {
            t.push(i);
        }
        assert_eq!(t.len(), m.min(TRAIL_CAP));
        assert_eq!(t.head(), (m - 1) % TRAIL_CAP);
        for j in 0..m.min(TRAIL_CAP) {
            assert_eq!(t.slot(t.idx(j)), m - 1 - j);
        }
    }
}
