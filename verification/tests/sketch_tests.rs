use rcad::sketch::{Point2, Sketch, SketchConstraint, SketchEntity, SketchPlane};
use rcad::Real;

fn p(x: f64, y: f64) -> Point2 {
    Point2 { x: Real::from_bits(x.to_bits()), y: Real::from_bits(y.to_bits()) }
}

fn r(x: f64) -> Real {
    Real::from_bits(x.to_bits())
}

#[test]
fn test_sketch_rectangle() {
    let mut sketch = Sketch::new_xy();
    let ids = sketch.add_rectangle(p(0.0, 0.0), p(10.0, 20.0));

    assert_eq!(ids.len(), 4);
    assert_eq!(sketch.entities.len(), 4);
}

#[test]
fn test_sketch_circle() {
    let mut sketch = Sketch::new_xy();
    sketch.add_circle(p(0.0, 0.0), r(10.0));

    assert_eq!(sketch.entities.len(), 1);
}

#[test]
fn rectangle_goes_round_its_corners() {
    let mut sketch = Sketch::new_xz();
    sketch.add_point(p(1.0, 1.0));
    let ids = sketch.add_rectangle(p(0.0, 0.0), p(10.0, 20.0));
    assert_eq!(ids, vec![1, 2, 3, 4]);
    match &sketch.entities[2] {
        SketchEntity::Line { start, end } => {
            assert_eq!(*start, p(10.0, 0.0));
            assert_eq!(*end, p(10.0, 20.0));
        }
        _ => panic!("a rectangle side is a line"),
    }
    match &sketch.entities[4] {
        SketchEntity::Line { start, end } => {
            assert_eq!(*start, p(0.0, 20.0));
            assert_eq!(*end, p(0.0, 0.0));
        }
        _ => panic!("a rectangle side is a line"),
    }
}

#[test]
fn polygon_closes_and_needs_three_vertices() {
    let mut sketch = Sketch::new_yz();
    assert!(sketch.add_polygon(&vec![p(0.0, 0.0), p(1.0, 0.0)]).is_empty());
    assert!(sketch.entities.is_empty());
    let ids = sketch.add_polygon(&vec![p(0.0, 0.0), p(1.0, 0.0), p(0.0, 1.0)]);
    assert_eq!(ids, vec![0, 1, 2]);
    match &sketch.entities[2] {
        SketchEntity::Line { start, end } => {
            assert_eq!(*start, p(0.0, 1.0));
            assert_eq!(*end, p(0.0, 0.0));
        }
        _ => panic!("a polygon side is a line"),
    }
    assert_eq!(sketch.add_arc(p(0.0, 0.0), r(1.0), r(0.0), r(1.5)), 3);
    assert_eq!(sketch.add_spline(vec![p(0.0, 0.0), p(2.0, 2.0)]), 4);
    sketch.add_constraint(SketchConstraint::Horizontal { entity: 0 });
    assert_eq!(sketch.constraints.len(), 1);
}

#[test]
fn standard_planes() {
    let xy = SketchPlane::xy();
    assert_eq!(f64::from_bits(xy.normal.z.bits), 1.0);
    assert_eq!(f64::from_bits(xy.y_direction.y.bits), 1.0);
    let up = SketchPlane::xy_offset(r(5.0));
    assert_eq!(f64::from_bits(up.origin.z.bits), 5.0);
    let xz = SketchPlane::xz();
    assert_eq!(f64::from_bits(xz.y_direction.z.bits), 1.0);
    let yz = SketchPlane::yz();
    assert_eq!(f64::from_bits(yz.normal.x.bits), 1.0);
}
