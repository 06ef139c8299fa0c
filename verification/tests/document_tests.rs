use rcad::constraint::{
    AssemblyConstraintData, Constraint, ConstraintData, ConstraintSolver, SketchConstraintData, SolveResult,
};
use rcad::document::{Document, ParameterValue};
use rcad::feature::{Feature, FeatureData, FeatureParameter, PrimitiveFeature};
use rcad::geometry::{ChamferConfig, ChamferType, FilletConfig, TessellationConfig};
use rcad::ids::{EntityId, FeatureId};
use rcad::{Error, Real, Units};

fn bits_of(v: f64) -> Real {
    Real::from_bits(v.to_bits())
}

fn boxed(name: &str) -> Feature {
    Feature::new(
        name,
        FeatureData::Primitive(PrimitiveFeature::Box { width: bits_of(100.0), height: bits_of(100.0), depth: bits_of(100.0) }),
    )
}

#[test]
fn test_document_creation() {
    let doc = Document::new("Test Document");
    assert_eq!(doc.name, "Test Document");
    assert!(doc.features.is_empty());
}

#[test]
fn test_add_feature() {
    let mut doc = Document::new("Test");
    let feature = boxed("Box1");
    let id = doc.add_feature(feature);
    assert!(doc.get_feature(id).is_some());
}

#[test]
fn test_feature_hierarchy() {
    let mut doc = Document::new("Test");
    let parent_id = doc.add_feature(boxed("Parent"));
    let child = Feature::new("Child", FeatureData::Primitive(PrimitiveFeature::Sphere { radius: bits_of(50.0) }));
    let child_id = doc.add_feature_child(child, parent_id).unwrap();

    assert_eq!(doc.get_parent(child_id), Some(parent_id));
    assert!(doc.get_children(parent_id).contains(&child_id));
}

#[test]
fn test_create_box_feature() {
    let feature = Feature::new(
        "Box1",
        FeatureData::Primitive(PrimitiveFeature::Box { width: bits_of(100.0), height: bits_of(50.0), depth: bits_of(25.0) }),
    );
    assert_eq!(feature.name, "Box1");
    assert_eq!(feature.feature_type(), "Box");
    assert!(!feature.suppressed);
}

#[test]
fn test_feature_parameter() {
    let mut feature = Feature::new(
        "Cylinder1",
        FeatureData::Primitive(PrimitiveFeature::Cylinder { radius: bits_of(25.0), height: bits_of(100.0) }),
    );
    feature.set_parameter("radius", FeatureParameter::Value(bits_of(30.0)));
    feature.set_parameter("height", FeatureParameter::Link("main_height".to_string()));

    assert_eq!(feature.get_parameter("radius").unwrap().resolve(), Some(bits_of(30.0)));
    assert_eq!(feature.get_parameter("height").unwrap().resolve(), None);
}

#[test]
fn test_constraint_solver() {
    let mut solver = ConstraintSolver::new();
    solver.add_constraint(Constraint::new(ConstraintData::Sketch(SketchConstraintData::Horizontal {
        line: EntityId::new(),
    })));
    solver.add_constraint(Constraint::new(ConstraintData::Sketch(SketchConstraintData::Distance {
        entity1: EntityId::new(),
        entity2: None,
        value: bits_of(100.0),
    })));
    assert_eq!(solver.constraints().len(), 2);
}

#[test]
fn test_dof_reduction() {
    let fixed = Constraint::new(ConstraintData::Sketch(SketchConstraintData::Fixed { point: EntityId::new() }));
    assert_eq!(fixed.dof_reduction(), 2);
    let horizontal = Constraint::new(ConstraintData::Sketch(SketchConstraintData::Horizontal { line: EntityId::new() }));
    assert_eq!(horizontal.dof_reduction(), 1);
}

#[test]
fn solver_tracks_degrees_of_freedom() {
    let mut solver = ConstraintSolver::new();
    assert_eq!(solver.degrees_of_freedom(), 0);
    assert!(!solver.is_fully_constrained());
    let lock = Constraint::new(ConstraintData::Assembly(AssemblyConstraintData::Lock {
        component1: FeatureId(1),
        component2: FeatureId(2),
    }));
    let idx = solver.add_constraint(lock);
    assert_eq!(idx, 0);
    assert_eq!(solver.degrees_of_freedom(), 94);
    assert!(matches!(solver.solve(), Ok(SolveResult::UnderConstrained { dof: 94 })));
    let removed = solver.remove_constraint(0).unwrap();
    assert_eq!(removed.dof_reduction(), 6);
    assert_eq!(solver.degrees_of_freedom(), 100);
    assert!(solver.remove_constraint(3).is_none());
}

#[test]
fn solver_reaches_zero_and_beyond() {
    let mut solver = ConstraintSolver::new();
    for _ in 0..16 {
        solver.add_constraint(Constraint::new(ConstraintData::Assembly(AssemblyConstraintData::Fixed {
            component: FeatureId(3),
        })));
    }
    // 16 * 6 = 96 removed
    for _ in 0..2 {
        solver.add_constraint(Constraint::new(ConstraintData::Sketch(SketchConstraintData::Coincident {
            point1: EntityId(1),
            point2: EntityId(2),
        })));
    }
    assert_eq!(solver.degrees_of_freedom(), 0);
    assert!(solver.is_fully_constrained());
    assert!(matches!(solver.solve(), Ok(SolveResult::Solved)));
    solver.add_constraint(Constraint::new(ConstraintData::Sketch(SketchConstraintData::Vertical { line: EntityId(4) })));
    assert!(solver.is_over_constrained());
    assert!(matches!(solver.solve(), Ok(SolveResult::OverConstrained)));
}

#[test]
fn inactive_constraint_removes_nothing() {
    let mut c = Constraint::new(ConstraintData::Assembly(AssemblyConstraintData::Insert {
        axis1: (FeatureId(1), EntityId(1)),
        axis2: (FeatureId(2), EntityId(2)),
    }));
    assert_eq!(c.dof_reduction(), 3);
    c.active = false;
    assert_eq!(c.dof_reduction(), 0);
}

#[test]
fn add_child_to_missing_parent_fails() {
    let mut doc = Document::new("Test");
    let missing = FeatureId(12345);
    let r = doc.add_feature_child(boxed("Orphan"), missing);
    assert!(matches!(r, Err(Error::FeatureNotFound(FeatureId(12345)))));
    assert!(doc.features.is_empty());
    assert!(!doc.is_dirty);
}

#[test]
fn remove_feature_removes_descendants() {
    let mut doc = Document::new("Tree");
    let root = doc.add_feature(boxed("Root"));
    let a = doc.add_feature_child(boxed("A"), root).unwrap();
    let b = doc.add_feature_child(boxed("B"), a).unwrap();
    let other = doc.add_feature(boxed("Other"));
    let removed = doc.remove_feature(a).unwrap();
    assert_eq!(removed.name, "A");
    assert!(doc.get_feature(a).is_none());
    assert!(doc.get_feature(b).is_none());
    assert!(doc.get_feature(root).is_some());
    assert!(doc.get_feature(other).is_some());
    assert_eq!(doc.get_parent(b), None);
    assert!(doc.get_children(root).is_empty());
    let mut roots = doc.get_root_features();
    roots.sort_by_key(|f| f.0);
    let mut expected = vec![root, other];
    expected.sort_by_key(|f| f.0);
    assert_eq!(roots, expected);
}

#[test]
fn remove_missing_feature_fails() {
    let mut doc = Document::new("Empty");
    let r = doc.remove_feature(FeatureId(99));
    assert!(matches!(r, Err(Error::FeatureNotFound(FeatureId(99)))));
}

#[test]
fn root_features_in_order() {
    let mut doc = Document::new("Order");
    let a = doc.add_feature(boxed("A"));
    let b = doc.add_feature(boxed("B"));
    let _c = doc.add_feature_child(boxed("C"), a).unwrap();
    assert_eq!(doc.get_root_features(), vec![a, b]);
    let order: Vec<String> = doc.features_in_order().iter().map(|(_, f)| f.name.clone()).collect();
    assert_eq!(order, vec!["A".to_string(), "B".to_string(), "C".to_string()]);
}

#[test]
fn re_adding_feature_replaces_in_place() {
    let mut doc = Document::new("Replace");
    let id = FeatureId(5);
    doc.add_feature(Feature::with_id(id, "First", FeatureData::Primitive(PrimitiveFeature::Sphere { radius: bits_of(1.0) })));
    doc.add_feature(boxed("Second"));
    doc.add_feature(Feature::with_id(id, "Again", FeatureData::Primitive(PrimitiveFeature::Sphere { radius: bits_of(2.0) })));
    assert_eq!(doc.features.len(), 2);
    assert_eq!(doc.get_feature(id).unwrap().name, "Again");
    let order: Vec<u128> = doc.features_in_order().iter().map(|(k, _)| k.0).collect();
    assert_eq!(order[0], 5);
}

#[test]
fn document_parameters_and_mutation() {
    let mut doc = Document::new("Params");
    doc.set_parameter("length", ParameterValue::Integer(40));
    doc.set_parameter("flag", ParameterValue::Boolean(true));
    doc.set_parameter("label", ParameterValue::String("abc".to_string()));
    assert!(matches!(doc.get_parameter("length"), Some(ParameterValue::Integer(40))));
    assert_eq!(doc.get_parameter("flag").unwrap().as_boolean(), Some(true));
    assert_eq!(doc.get_parameter("label").unwrap().as_string(), Some("abc"));
    assert_eq!(doc.get_parameter("length").unwrap().as_string(), None);
    assert!(doc.get_parameter("missing").is_none());
    assert!(doc.is_dirty);
    assert!(doc.recompute().is_ok());
    let id = doc.add_feature(boxed("Edit"));
    doc.get_feature_mut(id).unwrap().suppressed = true;
    assert!(doc.get_feature(id).unwrap().suppressed);
    let d = Document::default();
    assert_eq!(d.name, "Untitled");
}

#[test]
fn feature_kinds_and_dependencies() {
    let mut f = boxed("Deps");
    f.add_dependency(FeatureId(1));
    f.add_dependency(FeatureId(2));
    f.add_dependency(FeatureId(1));
    assert_eq!(f.depends_on, vec![FeatureId(1), FeatureId(2)]);
    let s = Feature::new(
        "Sketchy",
        FeatureData::Boolean(rcad::feature::BooleanFeature::Subtract { target: FeatureId(1), tools: vec![] }),
    );
    assert_eq!(s.feature_type(), "Subtract");
}

#[test]
fn test_fillet_config() {
    let config = FilletConfig::new(rcad::Real::from_bits(5.0f64.to_bits())).with_edges(vec![0, 1, 2]);
    assert_eq!(f64::from_bits(config.radius.bits), 5.0);
    assert_eq!(config.edges.len(), 3);
}

#[test]
fn test_chamfer_config() {
    let config = ChamferConfig::equal_distance(rcad::Real::from_bits(3.0f64.to_bits()));
    match config.chamfer_type {
        ChamferType::EqualDistance(d) => assert_eq!(f64::from_bits(d.bits), 3.0),
        _ => panic!("Wrong chamfer type"),
    }
}

#[test]
fn tessellation_quality_presets() {
    let d = TessellationConfig::default();
    assert_eq!(f64::from_bits(d.chord_tolerance.bits), 0.01);
    assert_eq!(f64::from_bits(d.angular_tolerance.bits), 0.1);
    let h = TessellationConfig::high_quality();
    assert_eq!(f64::from_bits(h.min_edge_length.bits), 0.0005);
    let l = TessellationConfig::low_quality();
    assert_eq!(f64::from_bits(l.to_truck_tolerance().bits), 0.05);
    let c = ChamferConfig::two_distances(rcad::Real::from_bits(1), rcad::Real::from_bits(2)).with_edges(vec![4]);
    assert_eq!(c.edges, vec![4]);
}

#[test]
fn unit_lengths_in_millimeters() {

    assert_eq!(f64::from_bits(Units::Millimeters.to_mm().bits), 1.0);
    assert_eq!(f64::from_bits(Units::Inches.to_mm().bits), 25.4);
    assert_eq!(f64::from_bits(Units::Feet.to_mm().bits), 304.8);
    assert_eq!(f64::from_bits(Units::Meters.to_mm().bits), 1000.0);
}

fn sphere(id: u128, name: &str) -> Feature {
    Feature::with_id(FeatureId(id), name, FeatureData::Primitive(PrimitiveFeature::Sphere { radius: bits_of(1.0) }))
}

#[test]
fn feature_cannot_be_its_own_parent() {
    let mut doc = Document::new("Self");
    let p = doc.add_feature(sphere(7, "P"));
    doc.is_dirty = false;
    let r = doc.add_feature_child(sphere(7, "P again"), p);
    assert!(matches!(r, Err(Error::InvalidOperation(m)) if m == "A feature cannot be its own parent"));
    assert_eq!(doc.get_feature(p).unwrap().name, "P");
    assert_eq!(doc.get_parent(p), None);
    assert!(!doc.is_dirty);
}

#[test]
fn remove_feature_keeps_creation_order() {
    let mut doc = Document::new("T");
    doc.add_feature(sphere(1, "A"));
    doc.add_feature(sphere(2, "B"));
    doc.add_feature(sphere(3, "C"));
    let f = doc.remove_feature(FeatureId(1)).unwrap();
    assert_eq!(f.name, "A");
    let order: Vec<u128> = doc.features_in_order().iter().map(|(k, _)| k.0).collect();
    assert_eq!(order, vec![2, 3]);
}

#[test]
fn remove_feature_with_dangling_child_fails_unchanged() {
    let mut doc = Document::new("Dangling");
    doc.add_feature(sphere(1, "A"));
    doc.add_feature(sphere(2, "B"));
    doc.feature_parents.insert(9, 1);
    doc.is_dirty = false;
    let r = doc.remove_feature(FeatureId(1));
    assert!(matches!(r, Err(Error::FeatureNotFound(FeatureId(9)))));
    assert_eq!(doc.features.len(), 2);
    assert_eq!(doc.get_parent(FeatureId(9)), Some(FeatureId(1)));
    assert!(!doc.is_dirty);
}
