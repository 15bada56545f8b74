use engene::navigation::dynamic_nav_update::NavDirtyTracker;
use engene::navigation::local_cover_refresh::CoverRefreshQueue;
use engene::navigation::navmesh::NavGrid;
use engene::navigation::path_cache::PathCache;

#[test]
fn nav_tracker_drains_in_batches() {
    let mut t = NavDirtyTracker::new();
    assert!(t.is_empty());
    for i in 0..70 {
        t.mark_dirty(i, -i);
    }
    t.mark_dirty(3, -3);
    assert_eq!(t.pending_count(), 70);
    let first = t.drain_dirty_batch();
    assert_eq!(first.len(), 64);
    assert_eq!(t.pending_count(), 6);
    let second = t.drain_dirty_batch();
    assert_eq!(second.len(), 6);
    let mut all: Vec<(i32, i32)> = first.into_iter().chain(second).collect();
    all.sort();
    let mut expected: Vec<(i32, i32)> = (0..70).map(|i| (i, -i)).collect();
    expected.sort();
    assert_eq!(all, expected);
    assert!(t.is_empty());
}

#[test]
fn nav_tracker_cluster_rebuilds() {
    let mut t = NavDirtyTracker::new();
    t.mark_cluster_rebuild(7);
    t.mark_cluster_rebuild(3);
    t.mark_cluster_rebuild(7);
    t.mark_cluster_rebuild(9);
    assert!(!t.is_empty());
    assert_eq!(t.drain_cluster_rebuilds(), vec![7, 3]);
    assert_eq!(t.drain_cluster_rebuilds(), vec![9]);
    assert!(t.drain_cluster_rebuilds().is_empty());
    assert!(t.is_empty());
}

#[test]
fn nav_tracker_marks_square_area() {
    let mut t = NavDirtyTracker::new();
    t.mark_cells_around(10, -5, 1);
    assert_eq!(t.pending_count(), 9);
    t.mark_cells_around(0, 0, -1);
    assert_eq!(t.pending_count(), 9);
    t.mark_cells_around(i32::MAX, i32::MIN, 0);
    assert_eq!(t.pending_count(), 10);
    let mut cells = t.drain_dirty_batch();
    cells.sort();
    assert_eq!(cells[0], (9, -6));
    assert!(cells.contains(&(i32::MAX, i32::MIN)));
}

#[test]
fn cover_queue_drains_32_at_a_time() {
    let mut q = CoverRefreshQueue::new();
    q.mark_cells_around(0, 0, 3);
    assert!(!q.is_empty());
    assert_eq!(q.drain_batch().len(), 32);
    assert_eq!(q.drain_batch().len(), 17);
    assert!(q.is_empty());
    q.mark_dirty(1, 1);
    assert_eq!(q.drain_batch(), vec![(1, 1)]);
}

#[test]
fn path_cache_store_and_get() {
    let mut cache = PathCache::new();
    assert!(cache.get(1, 2).is_none());
    cache.store(1, 2, vec![1, 5, 2]);
    cache.store(2, 1, vec![2, 1]);
    assert_eq!(cache.get(1, 2), Some(&[1u32, 5, 2][..]));
    assert_eq!(cache.get(2, 1), Some(&[2u32, 1][..]));
    cache.store(1, 2, vec![1, 2]);
    assert_eq!(cache.get(1, 2), Some(&[1u32, 2][..]));
    assert!(cache.get(1, 3).is_none());
}

#[test]
fn nav_grid_straight_path_on_open_grid() {
    let grid = NavGrid::new(4, 1, vec![true; 4]);
    let path = grid.find_path_cells(0, 0, 3, 0).unwrap();
    assert_eq!(path, vec![0, 1, 2, 3]);
}

#[test]
fn nav_grid_diagonal_path_is_shortest() {
    let grid = NavGrid::new(3, 3, vec![true; 9]);
    let path = grid.find_path_cells(0, 0, 2, 2).unwrap();
    assert_eq!(path, vec![0, 4, 8]);
}

#[test]
fn nav_grid_same_start_and_goal() {
    let grid = NavGrid::new(2, 2, vec![true; 4]);
    assert_eq!(grid.find_path_cells(1, 1, 1, 1), Some(vec![3]));
}

#[test]
fn nav_grid_detours_around_wall() {
    // 3x3 grid, middle column blocked except the bottom row.
    let passable = vec![true, false, true, true, false, true, true, true, true];
    let grid = NavGrid::new(3, 3, passable);
    let path = grid.find_path_cells(0, 0, 2, 0).unwrap();
    assert_eq!(path.first(), Some(&0));
    assert_eq!(path.last(), Some(&2));
    assert!(!path.contains(&1));
    assert!(!path.contains(&4));
    // Down two rows, across the bottom, up two rows: 10+14+14+10 = 48 is best.
    assert_eq!(path.len(), 5);
}

#[test]
fn nav_grid_blocked_ends_give_none() {
    let grid = NavGrid::new(2, 1, vec![false, true]);
    assert_eq!(grid.find_path_cells(0, 0, 1, 0), None);
    assert_eq!(grid.find_path_cells(1, 0, 0, 0), None);
}

#[test]
fn nav_grid_unreachable_goal_gives_none() {
    let grid = NavGrid::new(3, 1, vec![true, false, true]);
    assert_eq!(grid.find_path_cells(0, 0, 2, 0), None);
}

#[test]
fn drains_reduce_pending_count_by_batch_size() {
    let mut t = NavDirtyTracker::new();
    for i in 0..100 {
        t.mark_dirty(i, i);
    }
    let batch = t.drain_dirty_batch();
    assert_eq!(t.pending_count(), 100 - batch.len());
    let mut q = CoverRefreshQueue::new();
    for i in 0..40 {
        q.mark_dirty(i, 0);
    }
    assert_eq!(q.drain_batch().len(), 32);
    assert_eq!(q.drain_batch().len(), 8);
    assert!(q.is_empty());
}
