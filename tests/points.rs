use scalar_autograd::points::{modify_datapoint, Datapoint2D, Label2D};

fn sample() -> Vec<Datapoint2D> {
    vec![
        Datapoint2D::new((-10, 9), Label2D::Green),
        Datapoint2D::new((8, 8), Label2D::Green),
        Datapoint2D::new((-5, -5), Label2D::Purple),
    ]
}

#[test]
fn painting_an_empty_spot_adds_a_point() {
    let mut points = sample();
    assert!(modify_datapoint(&mut points, (1, 2), Some(Label2D::Purple)));
    assert_eq!(points.len(), 4);
    assert_eq!(points[3].pos, (1, 2));
    assert_eq!(points[3].label, Label2D::Purple);
}

#[test]
fn painting_with_another_label_relabels() {
    let mut points = sample();
    assert!(modify_datapoint(&mut points, (8, 8), Some(Label2D::Purple)));
    assert_eq!(points.len(), 3);
    assert_eq!(points[1].label, Label2D::Purple);
}

#[test]
fn painting_with_the_same_label_changes_nothing() {
    let mut points = sample();
    assert!(!modify_datapoint(&mut points, (-5, -5), Some(Label2D::Purple)));
    assert_eq!(points.len(), 3);
    assert_eq!(points[2].label, Label2D::Purple);
}

#[test]
fn erasing_removes_the_point() {
    let mut points = sample();
    assert!(modify_datapoint(&mut points, (-10, 9), None));
    assert_eq!(points.len(), 2);
    assert_eq!(points[0].pos, (8, 8));
}

#[test]
fn erasing_an_empty_spot_changes_nothing() {
    let mut points = sample();
    assert!(!modify_datapoint(&mut points, (0, 0), None));
    assert_eq!(points.len(), 3);
}
