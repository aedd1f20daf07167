use raytracer::mesh::{TriangleIndexError, TriangleIndices};
use raytracer::progress::{Progress, ProgressBar};
use raytracer::scene::Logistics;

#[test]
fn tickets_run_over_columns_rows_then_samples() {
    let l = Logistics::new(3, 2, 4);
    assert_eq!(l.ticket_count(), Some(24));
    assert_eq!(l.ticket(0), (0, 0));
    assert_eq!(l.ticket(3), (0, 0));
    assert_eq!(l.ticket(4), (0, 1));
    assert_eq!(l.ticket(8), (1, 0));
    assert_eq!(l.ticket(23), (2, 1));
}

#[test]
fn each_pixel_gets_samples_tickets() {
    let l = Logistics::new(5, 3, 7);
    let mut counts = vec![0u32; 15];
    for k in 0..l.ticket_count().unwrap() {
        let (x, y) = l.ticket(k);
        counts[l.pixel_index(x, y)] += 1;
    }
    assert!(counts.iter().all(|&c| c == 7));
}

#[test]
fn ticket_count_overflow_is_none() {
    let l = Logistics::new(u32::MAX, u32::MAX, u32::MAX);
    assert_eq!(l.ticket_count(), None);
    let m = Logistics::new(u32::MAX, u32::MAX, 1);
    assert_eq!(m.ticket_count(), Some(u32::MAX as u64 * u32::MAX as u64));
}

#[test]
fn pixel_index_is_row_major() {
    let l = Logistics::new(4, 3, 1);
    assert_eq!(l.pixel_count(), Some(12));
    assert_eq!(l.pixel_index(0, 0), 0);
    assert_eq!(l.pixel_index(3, 0), 3);
    assert_eq!(l.pixel_index(0, 1), 4);
    assert_eq!(l.pixel_index(3, 2), 11);
}

#[test]
fn progress_shows_after_enough_growth() {
    let mut p = Progress::new(1000, 20);
    assert_eq!(p.update(9), None);
    assert_eq!(p.current_progress, 9);
    assert_eq!(p.update(1), Some(ProgressBar { filled: 0, empty: 20, percent: 1 }));
    assert_eq!(p.last_update, 10);
    assert_eq!(p.update(5), None);
    assert_eq!(p.update(485), Some(ProgressBar { filled: 10, empty: 10, percent: 50 }));
}

#[test]
fn progress_is_capped_at_total() {
    let mut p = Progress::new(100, 10);
    assert_eq!(p.update(250), Some(ProgressBar { filled: 10, empty: 0, percent: 100 }));
    assert_eq!(p.current_progress, 100);
    assert_eq!(p.update(u64::MAX), None);
    p.done();
    assert_eq!((p.current_progress, p.last_update), (0, 0));
}

#[test]
fn progress_rounds_halves_up() {
    let mut p = Progress::new(8, 3);
    assert_eq!(p.update(1), Some(ProgressBar { filled: 0, empty: 3, percent: 13 }));
    assert_eq!(p.update(3), Some(ProgressBar { filled: 2, empty: 1, percent: 50 }));
}

#[test]
fn progress_with_no_work_never_shows() {
    let mut p = Progress::new(0, 10);
    assert_eq!(p.update(5), None);
    assert_eq!(p.current_progress, 0);
}

#[test]
fn triangle_indices_accepted() {
    let t = TriangleIndices::new(3, 3, 0, 1, 2, Some(0), None, Some(2));
    assert!(t == Ok(TriangleIndices { v0: 0, v1: 1, v2: 2, t0: Some(0), t1: None, t2: Some(2) }));
}

#[test]
fn triangle_vertex_out_of_range() {
    let t = TriangleIndices::new(3, 3, 0, 3, 1, Some(7), None, None);
    assert!(t == Err(TriangleIndexError::Vertex { vertex_count: 3, v0: 0, v1: 3, v2: 1 }));
    let e = TriangleIndices::new(0, 3, 0, 0, 0, None, None, None);
    assert!(e == Err(TriangleIndexError::Vertex { vertex_count: 0, v0: 0, v1: 0, v2: 0 }));
}

#[test]
fn triangle_tex_coord_out_of_range() {
    let t = TriangleIndices::new(3, 2, 0, 1, 2, Some(1), Some(2), Some(5));
    assert!(t == Err(TriangleIndexError::TexCoord { tex_coord_count: 2, index: 2 }));
}
