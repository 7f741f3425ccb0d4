use cosmos_raiders::collision::CollisionMatrices;
use cosmos_raiders::grid::Grid;
use cosmos_raiders::position::Position;
use cosmos_raiders::spatial::{laser_collision, laser_collisions, IndexEntry, RefreshSchedule, SpatialIndex};

fn px(x: i32, y: i32) -> Position {
    Position::new(x * 1000, y * 1000)
}

fn entry(x: i32, y: i32, entity: usize) -> IndexEntry {
    IndexEntry { position: px(x, y), entity }
}

#[test]
fn nearest_of_three_known_positions() {
    let index = SpatialIndex::from_entries(vec![entry(10, 0, 7), entry(0, 5, 8), entry(-3, -3, 9)]);
    assert_eq!(index.nearest_neighbour(px(0, 0)), Some((px(-3, -3), 9)));
    assert_eq!(index.nearest_neighbour(px(9, 1)), Some((px(10, 0), 7)));
    assert_eq!(index.nearest_neighbour(px(0, 4)), Some((px(0, 5), 8)));
}

#[test]
fn tie_goes_to_first_added() {
    let mut index = SpatialIndex::new();
    index.insert(px(4, 3), 1);
    index.insert(px(3, 4), 2);
    index.insert(px(0, -5), 3);
    assert_eq!(index.len(), 3);
    assert_eq!(index.nearest_neighbour(px(0, 0)), Some((px(4, 3), 1)));
    let mut other = SpatialIndex::new();
    other.insert(px(0, -5), 3);
    other.insert(px(4, 3), 1);
    assert_eq!(other.nearest_neighbour(px(0, 0)), Some((px(0, -5), 3)));
}

#[test]
fn empty_index_has_no_nearest() {
    let index = SpatialIndex::new();
    assert_eq!(index.nearest_neighbour(px(0, 0)), None);
}

#[test]
fn refresh_replaces_entries() {
    let mut index = SpatialIndex::from_entries(vec![entry(0, 0, 0)]);
    index.refresh(vec![entry(100, 100, 4), entry(-50, 0, 5)]);
    assert_eq!(index.len(), 2);
    assert_eq!(index.nearest_neighbour(px(1, 1)), Some((px(-50, 0), 5)));
}

#[test]
fn far_corners_do_not_overflow() {
    let far = Position::new(i32::MIN, i32::MIN);
    let near = Position::new(i32::MAX, i32::MAX - 1);
    let index = SpatialIndex::from_entries(vec![IndexEntry { position: far, entity: 0 }, IndexEntry { position: near, entity: 1 }]);
    assert_eq!(index.nearest_neighbour(Position::new(i32::MAX, i32::MAX)), Some((near, 1)));
}

fn block() -> Grid {
    let mut g = Grid::new(32, 32);
    for r in 8..24 {
        for c in 8..24 {
            g.set(r, c, true);
        }
    }
    g
}

#[test]
fn laser_hits_nearest_enemy() {
    let m = CollisionMatrices::from_masks(vec![block(), block()]).unwrap();
    let index = SpatialIndex::from_entries(vec![entry(0, 100, 0), entry(40, 0, 1)]);
    let sprites = vec![1, 1];
    assert_eq!(laser_collision(&m, &index, &sprites, 0, px(30, 0)), Some(1));
    // Nearest is entity 1, but the masks do not meet.
    assert_eq!(laser_collision(&m, &index, &sprites, 0, px(20, 0)), None);
}

#[test]
fn laser_misses_without_enemies_or_sprite() {
    let m = CollisionMatrices::from_masks(vec![block(), block()]).unwrap();
    let empty = SpatialIndex::new();
    assert_eq!(laser_collision(&m, &empty, &vec![1], 0, px(0, 0)), None);
    let index = SpatialIndex::from_entries(vec![entry(0, 0, 5)]);
    assert_eq!(laser_collision(&m, &index, &vec![1], 0, px(0, 0)), None);
}

#[test]
fn refresh_schedule_fires_each_period() {
    let mut s = RefreshSchedule::new(50);
    assert_eq!(s.period(), 50);
    assert!(!s.tick(16));
    assert!(!s.tick(16));
    assert_eq!(s.elapsed(), 32);
    assert!(!s.tick(17));
    assert!(s.tick(1));
    assert_eq!(s.elapsed(), 0);
    assert!(s.tick(500));
    assert_eq!(s.elapsed(), 0);
}

#[test]
fn each_laser_of_a_tick_is_tested() {
    let m = CollisionMatrices::from_masks(vec![block(), block()]).unwrap();
    let index = SpatialIndex::from_entries(vec![entry(0, 100, 0), entry(40, 0, 1)]);
    let sprites = vec![1, 1];
    let lasers = vec![px(30, 0), px(20, 0), px(-5, 95), px(500, 500)];
    assert_eq!(laser_collisions(&m, &index, &sprites, 0, &lasers), vec![Some(1), None, Some(0), None]);
}
