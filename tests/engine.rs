use raytracer::integrator::{budget_left, next_step, Bounce, PathStep};
use raytracer::scene::nearest_hit;
use raytracer::schedule::{row_batches, RowBatch};
use raytracer::telemetry::{progress_cells, report_due, RayCounter};

fn key(t: f64) -> Option<u64> {
    Some(t.to_bits())
}

#[test]
fn nearest_of_two_overlapping_spheres() {
    // Two spheres along one ray, struck at t = 5 and t = 2.
    assert_eq!(nearest_hit(&vec![key(5.0), key(2.0)]), Some(1));
    assert_eq!(nearest_hit(&vec![key(2.0), key(5.0)]), Some(0));
}

#[test]
fn nearest_hit_keeps_earliest_on_ties_and_skips_misses() {
    assert_eq!(nearest_hit(&vec![None, key(3.0), key(0.5), key(0.5)]), Some(2));
    assert_eq!(nearest_hit(&vec![key(1.0), key(1.0)]), Some(0));
    assert_eq!(nearest_hit(&vec![None, None]), None);
    assert_eq!(nearest_hit(&vec![]), None);
    assert_eq!(nearest_hit(&vec![None, key(1000.0)]), Some(1));
}

#[test]
fn path_steps_follow_the_bounce_budget() {
    assert!(!budget_left(0));
    assert!(budget_left(1));
    assert_eq!(next_step(5, Bounce::Scattered), PathStep::Trace(4));
    assert_eq!(next_step(1, Bounce::Scattered), PathStep::Trace(0));
    assert_eq!(next_step(5, Bounce::Missed), PathStep::Sky);
    assert_eq!(next_step(5, Bounce::Absorbed), PathStep::Black);
    assert_eq!(next_step(0, Bounce::Missed), PathStep::Black);
    assert_eq!(next_step(0, Bounce::Scattered), PathStep::Black);
}

#[test]
fn path_of_scatters_ends_black_after_depth_bounces() {
    let mut depth = 5u32;
    let mut bounces = 0;
    loop {
        match next_step(depth, Bounce::Scattered) {
            PathStep::Trace(d) => {
                depth = d;
                bounces += 1;
            }
            PathStep::Black => break,
            PathStep::Sky => unreachable!(),
        }
    }
    assert_eq!(bounces, 5);
}

#[test]
fn row_batches_cover_frame_from_the_top() {
    assert_eq!(
        row_batches(5, 2),
        vec![
            RowBatch { start: 3, end: 5 },
            RowBatch { start: 1, end: 3 },
            RowBatch { start: 0, end: 1 },
        ]
    );
    assert_eq!(
        row_batches(3, 1),
        vec![
            RowBatch { start: 2, end: 3 },
            RowBatch { start: 1, end: 2 },
            RowBatch { start: 0, end: 1 },
        ]
    );
    assert_eq!(row_batches(4, 10), vec![RowBatch { start: 0, end: 4 }]);
    assert_eq!(row_batches(0, 3), vec![]);
}

#[test]
fn every_row_in_exactly_one_batch() {
    let h = 17u32;
    let v = row_batches(h, 4);
    for y in 0..h {
        let n = v.iter().filter(|b| b.start <= y && y < b.end).count();
        assert_eq!(n, 1);
    }
}

#[test]
fn ray_counter_counts_resets_and_merges() {
    let mut a = RayCounter::new();
    assert_eq!(a.get_count(), 0);
    a.count_ray();
    a.count_ray();
    assert_eq!(a.get_count(), 2);
    let mut b = RayCounter::new();
    b.count_ray();
    a.merge(&b);
    assert_eq!(a.get_count(), 3);
    a.reset_count();
    assert_eq!(a.get_count(), 0);
}

#[test]
fn ray_counter_saturates() {
    let mut a = RayCounter::new();
    a.count_ray();
    let mut big = RayCounter::new();
    for _ in 0..3 {
        big.count_ray();
    }
    // Merging a counter into itself repeatedly doubles it until it saturates.
    for _ in 0..70 {
        let copy = big;
        big.merge(&copy);
    }
    assert_eq!(big.get_count(), u64::MAX);
    big.count_ray();
    assert_eq!(big.get_count(), u64::MAX);
    a.merge(&big);
    assert_eq!(a.get_count(), u64::MAX);
}

#[test]
fn progress_cells_round_down() {
    assert_eq!(progress_cells(80, 50, 100), 40);
    assert_eq!(progress_cells(80, 0, 100), 0);
    assert_eq!(progress_cells(80, 100, 100), 80);
    assert_eq!(progress_cells(10, 1, 3), 3);
    assert_eq!(progress_cells(u32::MAX, u32::MAX, u32::MAX), u32::MAX);
}

#[test]
fn progress_reported_once_per_period() {
    assert!(report_due(0, 15));
    assert!(!report_due(7, 15));
    assert!(report_due(30, 15));
}
