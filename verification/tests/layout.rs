use blinksy::layout::{GridStepIterator, LineStepIterator, StepIterator};

fn grid_walk(h: usize, v: usize, serpentine: bool) -> Vec<(usize, usize)> {
    let mut iter: GridStepIterator<(), f32> = GridStepIterator::new((), (), (), h, v, serpentine);
    let mut out = Vec::new();
    while let Some(p) = iter.next_indices() {
        out.push(p);
    }
    out
}

#[test]
fn grid_walk_rows_in_order() {
    assert_eq!(
        grid_walk(3, 2, false),
        vec![(0, 0), (0, 1), (0, 2), (1, 0), (1, 1), (1, 2)]
    );
}

#[test]
fn grid_walk_serpentine() {
    assert_eq!(
        grid_walk(3, 3, true),
        vec![(0, 0), (0, 1), (0, 2), (1, 2), (1, 1), (1, 0), (2, 0), (2, 1), (2, 2)]
    );
}

#[test]
fn grid_walk_visits_every_position_once() {
    let walk = grid_walk(16, 16, true);
    assert_eq!(walk.len(), 256);
    let mut seen = vec![false; 256];
    for (v, h) in &walk {
        assert!(!seen[v * 16 + h]);
        seen[v * 16 + h] = true;
    }
    for pair in walk.windows(2) {
        let (a, b) = (pair[0], pair[1]);
        let dist = a.0.abs_diff(b.0) + a.1.abs_diff(b.1);
        assert_eq!(dist, 1);
    }
}

#[test]
fn grid_walk_empty_rows() {
    assert_eq!(grid_walk(0, 3, false), vec![]);
    assert_eq!(grid_walk(0, 3, true), vec![]);
    assert_eq!(grid_walk(4, 0, true), vec![]);
}

#[test]
fn grid_points_from_steps() {
    let mut iter: GridStepIterator<(f32, f32), f32> =
        GridStepIterator::new((-1.0, -1.0), (0.0, 2.0), (2.0, 0.0), 2, 2, true);
    let mut points = Vec::new();
    while let Some((v, h)) = iter.next_indices() {
        let (sx, sy) = *iter.start();
        let (vx, vy) = *iter.vertical_step();
        let (hx, hy) = *iter.horizontal_step();
        points.push((sx + v as f32 * vx + h as f32 * hx, sy + v as f32 * vy + h as f32 * hy));
    }
    assert_eq!(points, vec![(-1.0, -1.0), (1.0, -1.0), (1.0, 1.0), (-1.0, 1.0)]);
}

#[test]
fn line_and_step_walks() {
    let mut line: LineStepIterator<f32, f32> = LineStepIterator::new(0.5, 0.25, 3);
    assert_eq!(*line.start(), 0.5);
    assert_eq!(*line.step(), 0.25);
    assert_eq!(line.next_index(), Some(0));
    assert_eq!(line.next_index(), Some(1));
    assert_eq!(line.next_index(), Some(2));
    assert_eq!(line.next_index(), None);

    let mut step: StepIterator<i32, i32> = StepIterator::new(1, 2, 0);
    assert_eq!(step.next_index(), None);
}
