use impossible_polygon::{
    arrange_intersections, connect_points, face_plan, guide_chords, offset_chords, pairwise_hits,
    FaceVertex,
};

#[test]
fn connect_points_closes_triangle() {
    let lines = connect_points(&vec!['a', 'b', 'c']);
    assert_eq!(lines, vec![('a', 'b'), ('b', 'c'), ('c', 'a')]);
}

#[test]
fn connect_points_closes_square() {
    let lines = connect_points(&vec![(0, 0), (1, 0), (1, 1), (0, 1)]);
    assert_eq!(
        lines,
        vec![
            ((0, 0), (1, 0)),
            ((1, 0), (1, 1)),
            ((1, 1), (0, 1)),
            ((0, 1), (0, 0)),
        ]
    );
}

#[test]
fn arrange_odd_keeps_order() {
    let r = arrange_intersections(3, vec![0, 1, 2, 3, 4, 5]);
    assert_eq!(r, Some(vec![0, 1, 2, 3, 4, 5]));
}

#[test]
fn arrange_even_moves_last_to_front() {
    let r = arrange_intersections(4, vec![0, 1, 2, 3, 4, 5, 6, 7]);
    assert_eq!(r, Some(vec![7, 0, 1, 2, 3, 4, 5, 6]));
}

#[test]
fn arrange_rejects_wrong_count() {
    assert_eq!(arrange_intersections(3, vec![0, 1, 2, 3, 4]), None);
    assert_eq!(arrange_intersections(3, vec![0, 1, 2, 3, 4, 5, 6, 7]), None);
    assert_eq!(arrange_intersections(4, Vec::<i32>::new()), None);
}

#[test]
fn guide_chords_for_triangle() {
    let r = guide_chords(&vec![0, 1, 2, 3, 4, 5]);
    assert_eq!(r, vec![(0, 3), (2, 5), (4, 1)]);
}

#[test]
fn guide_chords_for_square() {
    let r = guide_chords(&vec![0, 1, 2, 3, 4, 5, 6, 7]);
    assert_eq!(r, vec![(0, 3), (2, 5), (4, 7), (6, 1)]);
}

#[test]
fn offset_chords_pair_rotated_points() {
    let r = offset_chords(&vec![0, 1, 2, 3, 4, 5]);
    assert_eq!(r, vec![(5, 0), (1, 2), (3, 4)]);
}

#[test]
fn face_plan_first_face_of_triangle() {
    assert_eq!(
        face_plan(3, 0),
        vec![
            FaceVertex::Corner(0),
            FaceVertex::Corner(1),
            FaceVertex::Corner(2),
            FaceVertex::ChordCut { from: 2, to: 5, offset: 0 },
            FaceVertex::Crossing { line: 0, other: 2 },
            FaceVertex::Crossing { line: 0, other: 2 },
            FaceVertex::ChordCut { from: 0, to: 3, offset: 2 },
        ]
    );
}

#[test]
fn face_plan_last_face_of_triangle_wraps() {
    assert_eq!(
        face_plan(3, 2),
        vec![
            FaceVertex::Corner(4),
            FaceVertex::Corner(5),
            FaceVertex::Corner(0),
            FaceVertex::ChordCut { from: 0, to: 3, offset: 2 },
            FaceVertex::Crossing { line: 2, other: 1 },
            FaceVertex::Crossing { line: 2, other: 1 },
            FaceVertex::ChordCut { from: 4, to: 1, offset: 1 },
        ]
    );
}

#[test]
fn face_plan_last_face_of_square_wraps() {
    assert_eq!(
        face_plan(4, 3),
        vec![
            FaceVertex::Corner(6),
            FaceVertex::Corner(7),
            FaceVertex::Corner(0),
            FaceVertex::ChordCut { from: 0, to: 3, offset: 2 },
            FaceVertex::Crossing { line: 2, other: 1 },
            FaceVertex::Crossing { line: 2, other: 1 },
            FaceVertex::ChordCut { from: 6, to: 1, offset: 1 },
        ]
    );
}

#[test]
fn pairwise_hits_row_by_row() {
    let xs = vec![1, 2, 3];
    let ys = vec![10, 20];
    let r = pairwise_hits(&xs, &ys, &|a: i32, b: i32| Some(a * 100 + b));
    assert_eq!(r, vec![110, 120, 210, 220, 310, 320]);
}

#[test]
fn pairwise_hits_drops_misses() {
    let xs = vec![1, 2, 3, 4];
    let ys = vec![2, 3];
    let r = pairwise_hits(&xs, &ys, &|a: i32, b: i32| if (a + b) % 2 == 0 { Some((a, b)) } else { None });
    assert_eq!(r, vec![(1, 3), (2, 2), (3, 3), (4, 2)]);
}

#[test]
fn pairwise_hits_empty_side() {
    let xs: Vec<i32> = vec![];
    let ys = vec![1, 2];
    assert_eq!(pairwise_hits(&xs, &ys, &|a: i32, b: i32| Some(a + b)), Vec::<i32>::new());
    assert_eq!(pairwise_hits(&ys, &xs, &|a: i32, b: i32| Some(a + b)), Vec::<i32>::new());
}
