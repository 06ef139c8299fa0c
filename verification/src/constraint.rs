//! Geometric and dimensional constraints and the bookkeeping of degrees of freedom.
use vstd::prelude::*;
use crate::ids::{EntityId, FeatureId};
use crate::{Error, Real};

verus! {

/// Number of variables the simplified degree-of-freedom count starts from.
pub const TOTAL_VARIABLES: i32 = 100;

/// 2D sketch constraints.
#[derive(Debug, Clone, Copy, PartialEq, Eq, Structural)]
pub enum SketchConstraintData {
    Fixed { point: EntityId },
    Horizontal { line: EntityId },
    Vertical { line: EntityId },
    Coincident { point1: EntityId, point2: EntityId },
    Parallel { line1: EntityId, line2: EntityId },
    Perpendicular { line1: EntityId, line2: EntityId },
    Tangent { curve1: EntityId, curve2: EntityId },
    Equal { entity1: EntityId, entity2: EntityId },
    Concentric { circle1: EntityId, circle2: EntityId },
    Symmetric { point1: EntityId, point2: EntityId, axis: EntityId },
    Distance { entity1: EntityId, entity2: Option<EntityId>, value: Real },
    Angle { line1: EntityId, line2: EntityId, value: Real },
    Radius { circle: EntityId, value: Real },
    PointOnLine { point: EntityId, line: EntityId },
    PointOnCircle { point: EntityId, circle: EntityId },
    Midpoint { point: EntityId, line: EntityId },
}

/// 3D assembly constraints; entities are given as (component, entity) pairs.
#[derive(Debug, Clone, Copy)]
pub enum AssemblyConstraintData {
    Fixed { component: FeatureId },
    Mate { face1: (FeatureId, EntityId), face2: (FeatureId, EntityId), offset: Real, flip: bool },
    Align { face1: (FeatureId, EntityId), face2: (FeatureId, EntityId), offset: Real },
    Angle { entity1: (FeatureId, EntityId), entity2: (FeatureId, EntityId), value: Real },
    Tangent { surface1: (FeatureId, EntityId), surface2: (FeatureId, EntityId) },
    Insert { axis1: (FeatureId, EntityId), axis2: (FeatureId, EntityId) },
    Parallel { entity1: (FeatureId, EntityId), entity2: (FeatureId, EntityId) },
    Perpendicular { entity1: (FeatureId, EntityId), entity2: (FeatureId, EntityId) },
    Concentric { cylinder1: (FeatureId, EntityId), cylinder2: (FeatureId, EntityId) },
    Lock { component1: FeatureId, component2: FeatureId },
    Distance { entity1: (FeatureId, EntityId), entity2: (FeatureId, EntityId), value: Real },
}

/// The kinds of constraints.
#[derive(Debug, Clone, Copy)]
pub enum ConstraintData {
    Sketch(SketchConstraintData),
    Assembly(AssemblyConstraintData),
}

/// A geometric or dimensional constraint.
#[derive(Debug, Clone, Copy)]
pub struct Constraint {
    pub id: EntityId,
    pub data: ConstraintData,
    /// Whether the constraint takes part in the system.
    pub active: bool,
    /// Driving (true) or driven, for reference only.
    pub driving: bool,
}

/// Degrees of freedom removed by a sketch constraint.
pub open spec fn sketch_reduction(d: SketchConstraintData) -> int {
    match d {
        SketchConstraintData::Fixed { .. } => 2,
        SketchConstraintData::Coincident { .. } => 2,
        SketchConstraintData::Concentric { .. } => 2,
        SketchConstraintData::Symmetric { .. } => 2,
        _ => 1,
    }
}

/// Degrees of freedom removed by an assembly constraint.
pub open spec fn assembly_reduction(d: AssemblyConstraintData) -> int {
    match d {
        AssemblyConstraintData::Fixed { .. } => 6,
        AssemblyConstraintData::Lock { .. } => 6,
        AssemblyConstraintData::Insert { .. } => 3,
        AssemblyConstraintData::Align { .. } => 2,
        AssemblyConstraintData::Parallel { .. } => 2,
        AssemblyConstraintData::Perpendicular { .. } => 2,
        AssemblyConstraintData::Concentric { .. } => 2,
        _ => 1,
    }
}

/// Degrees of freedom that a constraint removes: none when inactive.
pub open spec fn reduction(c: Constraint) -> int {
    if !c.active {
        0
    } else {
        match c.data {
            ConstraintData::Sketch(d) => sketch_reduction(d),
            ConstraintData::Assembly(d) => assembly_reduction(d),
        }
    }
}

/// Degrees of freedom removed by all constraints of `s`.
pub open spec fn total_reduction(s: Seq<Constraint>) -> int
    decreases s.len(),
{
    if s.len() == 0 {
        0
    } else {
        total_reduction(s.drop_last()) + reduction(s.last())
    }
}

impl Constraint {
    /// A new active, driving constraint with a fresh identifier.
    pub fn new(data: ConstraintData) -> (c: Constraint)
        ensures
            c.data == data,
            c.active,
            c.driving,
    {
        Constraint { id: EntityId::new(), data, active: true, driving: true }
    }

    /// The degrees of freedom this constraint removes.
    pub fn dof_reduction(&self) -> (r: i32)
        ensures
            r == reduction(*self),
    {
        if !self.active {
            return 0;
        }
        match &self.data {
            ConstraintData::Sketch(sc) => match sc {
                SketchConstraintData::Fixed { .. } => 2,
                SketchConstraintData::Horizontal { .. } => 1,
                SketchConstraintData::Vertical { .. } => 1,
                SketchConstraintData::Coincident { .. } => 2,
                SketchConstraintData::Parallel { .. } => 1,
                SketchConstraintData::Perpendicular { .. } => 1,
                SketchConstraintData::Tangent { .. } => 1,
                SketchConstraintData::Equal { .. } => 1,
                SketchConstraintData::Concentric { .. } => 2,
                SketchConstraintData::Symmetric { .. } => 2,
                SketchConstraintData::Distance { .. } => 1,
                SketchConstraintData::Angle { .. } => 1,
                SketchConstraintData::Radius { .. } => 1,
                SketchConstraintData::PointOnLine { .. } => 1,
                SketchConstraintData::PointOnCircle { .. } => 1,
                SketchConstraintData::Midpoint { .. } => 1,
            },
            ConstraintData::Assembly(ac) => match ac {
                AssemblyConstraintData::Fixed { .. } => 6,
                AssemblyConstraintData::Mate { .. } => 1,
                AssemblyConstraintData::Align { .. } => 2,
                AssemblyConstraintData::Angle { .. } => 1,
                AssemblyConstraintData::Tangent { .. } => 1,
                AssemblyConstraintData::Insert { .. } => 3,
                AssemblyConstraintData::Parallel { .. } => 2,
                AssemblyConstraintData::Perpendicular { .. } => 2,
                AssemblyConstraintData::Concentric { .. } => 2,
                AssemblyConstraintData::Lock { .. } => 6,
                AssemblyConstraintData::Distance { .. } => 1,
            },
        }
    }
}

/// Outcome of solving a constraint system.
#[derive(Debug)]
pub enum SolveResult {
    /// The system was solved.
    Solved,
    /// Some degrees of freedom remain.
    UnderConstrained { dof: i32 },
    /// More degrees of freedom are removed than exist.
    OverConstrained,
    /// The solver did not converge.
    Failed { message: String },
}

/// Constraint status for display.
#[derive(Debug, Clone, Copy, PartialEq, Eq, Structural)]
pub enum ConstraintStatus {
    Satisfied,
    Broken,
    Redundant,
    Disabled,
}

/// The mathematical state of a [`ConstraintSolver`].
pub struct SolverView {
    pub constraints: Seq<Constraint>,
    pub dof: i32,
    pub fully_constrained: bool,
    pub over_constrained: bool,
}

impl SolverView {
    /// The status fields as recomputed from `constraints`.
    pub open spec fn updated(constraints: Seq<Constraint>) -> SolverView {
        let dof = TOTAL_VARIABLES - total_reduction(constraints);
        SolverView {
            constraints,
            dof: dof as i32,
            fully_constrained: dof == 0,
            over_constrained: dof < 0,
        }
    }

    /// Well-formedness: either the untouched initial state, or the status agrees
    /// with the constraints.
    pub open spec fn wf(self) -> bool {
        ||| self == (SolverView {
            constraints: Seq::empty(),
            dof: 0,
            fully_constrained: false,
            over_constrained: false,
        })
        ||| (self == SolverView::updated(self.constraints) && total_reduction(self.constraints)
            <= i32::MAX)
    }
}

/// Holds the constraints of a system and its degree-of-freedom status.
#[derive(Debug)]
pub struct ConstraintSolver {
    constraints: Vec<Constraint>,
    dof: i32,
    fully_constrained: bool,
    over_constrained: bool,
}

impl View for ConstraintSolver {
    type V = SolverView;

    closed spec fn view(&self) -> SolverView {
        SolverView {
            constraints: self.constraints@,
            dof: self.dof,
            fully_constrained: self.fully_constrained,
            over_constrained: self.over_constrained,
        }
    }
}

/// Every constraint removes between 0 and 6 degrees of freedom, and none when inactive.
pub proof fn law_reduction_bounds(c: Constraint)
    ensures
        0 <= reduction(c) <= 6,
        !c.active ==> reduction(c) == 0,
        c.active ==> reduction(c) >= 1,
{
}

/// The total of a sequence is non-negative and grows by each appended constraint.
pub proof fn lemma_total_reduction_prefix(s: Seq<Constraint>, i: int)
    requires
        0 <= i <= s.len(),
    ensures
        0 <= total_reduction(s.subrange(0, i)) <= total_reduction(s),
    decreases s.len(),
{
    if s.len() > 0 {
        if i == s.len() {
            assert(s.subrange(0, i) =~= s);
            lemma_total_reduction_prefix(s.drop_last(), 0);
            assert(s.drop_last().subrange(0, 0) =~= s.subrange(0, 0));
        } else {
            lemma_total_reduction_prefix(s.drop_last(), i);
            assert(s.drop_last().subrange(0, i) =~= s.subrange(0, i));
        }
    }
}

/// The total is the sum of the totals of the two parts of a split.
pub proof fn lemma_total_reduction_split(a: Seq<Constraint>, b: Seq<Constraint>)
    ensures
        total_reduction(a + b) == total_reduction(a) + total_reduction(b),
    decreases b.len(),
{
    if b.len() == 0 {
        assert(a + b =~= a);
    } else {
        lemma_total_reduction_split(a, b.drop_last());
        assert((a + b).drop_last() =~= a + b.drop_last());
    }
}

impl ConstraintSolver {
    /// An empty solver.
    pub fn new() -> (s: ConstraintSolver)
        ensures
            s@ == (SolverView {
                constraints: Seq::empty(),
                dof: 0,
                fully_constrained: false,
                over_constrained: false,
            }),
            s@.wf(),
    {
        ConstraintSolver {
            constraints: Vec::new(),
            dof: 0,
            fully_constrained: false,
            over_constrained: false,
        }
    }

    /// Recomputes the status from the constraints.
    fn update_status(&mut self)
        requires
            total_reduction(old(self).constraints@) <= i32::MAX,
        ensures
            final(self)@ == SolverView::updated(old(self).constraints@),
    {
        let mut sum: i32 = 0;
        let mut i: usize = 0;
        while i < self.constraints.len()
            invariant
                i <= self.constraints@.len(),
                sum == total_reduction(self.constraints@.subrange(0, i as int)),
                total_reduction(self.constraints@) <= i32::MAX,
            decreases self.constraints@.len() - i,
        {
            proof {
                lemma_total_reduction_prefix(self.constraints@, i + 1);
                assert(self.constraints@.subrange(0, i + 1).drop_last() =~= self.constraints@.subrange(
                    0,
                    i as int,
                ));
            }
            sum = sum + self.constraints[i].dof_reduction();
            i = i + 1;
        }
        assert(self.constraints@.subrange(0, i as int) =~= self.constraints@);
        proof {
            lemma_total_reduction_prefix(self.constraints@, i as int);
        }
        self.dof = TOTAL_VARIABLES - sum;
        self.fully_constrained = self.dof == 0;
        self.over_constrained = self.dof < 0;
    }

    /// Adds a constraint and returns its index.
    pub fn add_constraint(&mut self, constraint: Constraint) -> (index: usize)
        requires
            old(self)@.wf(),
            total_reduction(old(self)@.constraints.push(constraint)) <= i32::MAX,
        ensures
            index == old(self)@.constraints.len(),
            final(self)@ == SolverView::updated(old(self)@.constraints.push(constraint)),
            final(self)@.wf(),
    {
        let id = self.constraints.len();
        self.constraints.push(constraint);
        self.update_status();
        id
    }

    /// Removes and returns the constraint at `index`, if there is one.
    pub fn remove_constraint(&mut self, index: usize) -> (r: Option<Constraint>)
        requires
            old(self)@.wf(),
        ensures
            final(self)@.wf(),
            index < old(self)@.constraints.len() ==> r == Some(old(self)@.constraints[index as int])
                && final(self)@ == SolverView::updated(old(self)@.constraints.remove(index as int)),
            index >= old(self)@.constraints.len() ==> r is None && final(self)@ == old(self)@,
    {
        if index < self.constraints.len() {
            proof {
                let s = self.constraints@;
                lemma_total_reduction_split(s.subrange(0, index as int), s.subrange(index + 1, s.len() as int));
                lemma_total_reduction_split(s.subrange(0, index as int + 1), s.subrange(index + 1, s.len() as int));
                assert(s.subrange(0, index as int + 1).drop_last() =~= s.subrange(0, index as int));
                assert(s.subrange(0, index as int + 1) + s.subrange(index + 1, s.len() as int) =~= s);
                assert(s.subrange(0, index as int) + s.subrange(index + 1, s.len() as int) =~= s.remove(index as int));
                law_reduction_bounds(s[index as int]);
                lemma_total_reduction_prefix(s, 0);
                lemma_total_reduction_prefix(s.remove(index as int), 0);
                assert(s.subrange(0, 0) =~= Seq::<Constraint>::empty());
                assert(s.remove(index as int).subrange(0, 0) =~= Seq::<Constraint>::empty());
            }
            let constraint = self.constraints.remove(index);
            self.update_status();
            Some(constraint)
        } else {
            None
        }
    }

    /// The constraints, in the order they were added.
    pub fn constraints(&self) -> (r: &[Constraint])
        ensures
            r@ == self@.constraints,
    {
        self.constraints.as_slice()
    }

    /// Whether no degree of freedom remains.
    pub fn is_fully_constrained(&self) -> (b: bool)
        ensures
            b == self@.fully_constrained,
    {
        self.fully_constrained
    }

    /// Whether more degrees of freedom are removed than exist.
    pub fn is_over_constrained(&self) -> (b: bool)
        ensures
            b == self@.over_constrained,
    {
        self.over_constrained
    }

    /// The remaining degrees of freedom.
    pub fn degrees_of_freedom(&self) -> (d: i32)
        ensures
            d == self@.dof,
    {
        self.dof
    }

    /// Reports the state of the system: over-constrained, under-constrained with the
    /// remaining degrees of freedom, or solved.
    pub fn solve(&mut self) -> (r: Result<SolveResult, Error>)
        ensures
            final(self)@ == old(self)@,
            r matches Ok(res) && (match res {
                SolveResult::OverConstrained => old(self)@.over_constrained,
                SolveResult::UnderConstrained { dof } => !old(self)@.over_constrained
                    && !old(self)@.fully_constrained && dof == old(self)@.dof,
                SolveResult::Solved => !old(self)@.over_constrained && old(self)@.fully_constrained,
                SolveResult::Failed { .. } => false,
            }),
    {
        if self.over_constrained {
            return Ok(SolveResult::OverConstrained);
        }
        if !self.fully_constrained {
            return Ok(SolveResult::UnderConstrained { dof: self.dof });
        }
        Ok(SolveResult::Solved)
    }
}

/// Adding a constraint and then removing it at the index it was given restores
/// the list of constraints, and the status matches that list.
pub proof fn law_add_then_remove(s: Seq<Constraint>, c: Constraint)
    ensures
        s.push(c).remove(s.len() as int) == s,
        s.push(c)[s.len() as int] == c,
{
    assert(s.push(c).remove(s.len() as int) =~= s);
}

/// Adding an active constraint lowers the remaining degrees of freedom by exactly
/// its reduction; adding an inactive one changes nothing.
pub proof fn law_add_lowers_dof(s: Seq<Constraint>, c: Constraint)
    requires
        total_reduction(s.push(c)) <= i32::MAX,
    ensures
        total_reduction(s.push(c)) == total_reduction(s) + reduction(c),
        SolverView::updated(s.push(c)).dof == SolverView::updated(s).dof - reduction(c),
{
    assert(s.push(c).drop_last() =~= s);
    lemma_total_reduction_prefix(s, s.len() as int);
    assert(s.subrange(0, s.len() as int) =~= s);
    law_reduction_bounds(c);
}

/// What adding one active assembly constraint does to a system's degrees of
/// freedom: a fixed or locked component loses all six of its rigid-body
/// freedoms, an insert three, an align, parallel, perpendicular or concentric
/// constraint two, and a mate, angle, tangent or distance constraint one.
pub proof fn law_assembly_constraint_dof(s: Seq<Constraint>, c: Constraint)
    requires
        total_reduction(s.push(c)) <= i32::MAX,
        c.active,
    ensures
        ({
            let lost = SolverView::updated(s).dof - SolverView::updated(s.push(c)).dof;
            &&& (c.data matches ConstraintData::Assembly(AssemblyConstraintData::Fixed { .. })) ==> lost == 6
            &&& (c.data matches ConstraintData::Assembly(AssemblyConstraintData::Lock { .. })) ==> lost == 6
            &&& (c.data matches ConstraintData::Assembly(AssemblyConstraintData::Insert { .. })) ==> lost == 3
            &&& (c.data matches ConstraintData::Assembly(AssemblyConstraintData::Align { .. })) ==> lost == 2
            &&& (c.data matches ConstraintData::Assembly(AssemblyConstraintData::Parallel { .. })) ==> lost == 2
            &&& (c.data matches ConstraintData::Assembly(AssemblyConstraintData::Perpendicular { .. })) ==> lost == 2
            &&& (c.data matches ConstraintData::Assembly(AssemblyConstraintData::Concentric { .. })) ==> lost == 2
            &&& (c.data matches ConstraintData::Assembly(AssemblyConstraintData::Mate { .. })) ==> lost == 1
            &&& (c.data matches ConstraintData::Assembly(AssemblyConstraintData::Angle { .. })) ==> lost == 1
            &&& (c.data matches ConstraintData::Assembly(AssemblyConstraintData::Tangent { .. })) ==> lost == 1
            &&& (c.data matches ConstraintData::Assembly(AssemblyConstraintData::Distance { .. })) ==> lost == 1
        }),
{
    law_add_lowers_dof(s, c);
}

} // verus!
