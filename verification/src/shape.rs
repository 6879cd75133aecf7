//! A ghost abstraction of the tree under construction, used to state
//! build-wide laws: `ClassShape` records, per class, its case-folded name,
//! its child action names and its child classes; `step` and `run` replay a
//! sequence of `begin_class` / `end_class` operations over that abstraction.
//!
//! Names in this module are always the stored, case-folded forms: a
//! `BuildOp::Begin` carries the case-folded form of the name handed to
//! `begin_class`.

use vstd::math::max;
use vstd::prelude::*;

use crate::builder::CommanderBuilder;
use crate::node::SubClass;

verus! {

broadcast use vstd::std_specs::vec::group_vec_axioms;

/// The shape of one class: its case-folded name, the case-folded names of
/// its child actions, and the shapes of its child classes, in insertion
/// order.
pub ghost struct ClassShape {
    pub name: Seq<char>,
    pub action_names: Seq<Seq<char>>,
    pub classes: Seq<ClassShape>,
}

/// The shape of a builder state: the shapes of the open ancestors,
/// root-most first, and the shape of the class currently being populated.
pub ghost struct BuilderShape {
    pub parents: Seq<ClassShape>,
    pub current: ClassShape,
}

/// One builder operation that changes nesting depth. `Begin` carries the
/// case-folded name of the class being opened.
pub ghost enum BuildOp {
    Begin(Seq<char>),
    End,
}

/// Whether some child action of `c` has the (case-folded) name `n`.
pub open spec fn shape_has_action(c: ClassShape, n: Seq<char>) -> bool {
    exists|i: int| 0 <= i < c.action_names.len() && c.action_names[i] == n
}

/// Whether some child class of `c` has the (case-folded) name `n`.
pub open spec fn shape_has_class(c: ClassShape, n: Seq<char>) -> bool {
    exists|i: int| 0 <= i < c.classes.len() && (#[trigger] c.classes[i]).name == n
}

/// Whether the (case-folded) name `n` collides with no child of `c`.
pub open spec fn shape_available(c: ClassShape, n: Seq<char>) -> bool {
    !shape_has_action(c, n) && !shape_has_class(c, n)
}

/// The shape of a concrete class node.
pub open spec fn class_shape<F>(c: SubClass<F>) -> ClassShape
    decreases c,
    via class_shape_decreases::<F>
{
    ClassShape {
        name: c.name@,
        action_names: Seq::new(c.actions@.len(), |i: int| c.actions@[i].name@),
        classes: shapes_of(c.classes@),
    }
}

#[via_fn]
proof fn class_shape_decreases<F>(c: SubClass<F>) {
    vstd::std_specs::vec::axiom_vec_decreases_to_view(c.classes);
}

/// The shapes of a sequence of concrete class nodes, in order.
pub open spec fn shapes_of<F>(cs: Seq<SubClass<F>>) -> Seq<ClassShape>
    decreases cs,
    via shapes_of_decreases::<F>
{
    if cs.len() == 0 {
        Seq::empty()
    } else {
        shapes_of(cs.drop_last()).push(class_shape(cs.last()))
    }
}

#[via_fn]
proof fn shapes_of_decreases<F>(cs: Seq<SubClass<F>>) {
    if cs.len() > 0 {
        vstd::seq::axiom_seq_index_decreases(cs, cs.len() - 1);
        assert(cs.last() == cs[cs.len() - 1]);
        vstd::seq::axiom_seq_subrange_decreases(cs, 0, cs.len() - 1);
        assert(cs.drop_last() == cs.subrange(0, cs.len() - 1));
    }
}

/// The shape of a concrete builder state.
pub open spec fn builder_shape<'a, F>(b: CommanderBuilder<'a, F>) -> BuilderShape {
    BuilderShape {
        parents: shapes_of(b.spec_parents()),
        current: class_shape(b.spec_current()),
    }
}

/// One step of a build over shapes, mirroring `begin_class` and `end_class`:
/// `Begin(n)` descends into a fresh class named `n` when `n` is available,
/// `End` attaches the current class to the nearest open ancestor. `None`
/// means the corresponding builder call would have failed.
pub open spec fn step(b: BuilderShape, op: BuildOp) -> Option<BuilderShape> {
    match op {
        BuildOp::Begin(n) => if shape_available(b.current, n) {
            Some(
                BuilderShape {
                    parents: b.parents.push(b.current),
                    current: ClassShape {
                        name: n,
                        action_names: Seq::empty(),
                        classes: Seq::empty(),
                    },
                },
            )
        } else {
            None
        },
        BuildOp::End => if b.parents.len() > 0 {
            Some(
                BuilderShape {
                    parents: b.parents.drop_last(),
                    current: ClassShape {
                        name: b.parents.last().name,
                        action_names: b.parents.last().action_names,
                        classes: b.parents.last().classes.push(b.current),
                    },
                },
            )
        } else {
            None
        },
    }
}

/// Replays a whole sequence of operations; `None` as soon as one fails.
pub open spec fn run(b: BuilderShape, ops: Seq<BuildOp>) -> Option<BuilderShape>
    decreases ops.len(),
{
    if ops.len() == 0 {
        Some(b)
    } else {
        match step(b, ops.first()) {
            Some(b2) => run(b2, ops.drop_first()),
            None => None,
        }
    }
}

/// How one operation changes the nesting depth.
pub open spec fn op_delta(op: BuildOp) -> int {
    match op {
        BuildOp::Begin(_) => 1,
        BuildOp::End => -1,
    }
}

/// The net nesting-depth change over a sequence of operations.
pub open spec fn net(ops: Seq<BuildOp>) -> int
    decreases ops.len(),
{
    if ops.len() == 0 {
        0
    } else {
        op_delta(ops.first()) + net(ops.drop_first())
    }
}

/// The maximum nesting depth reached over a sequence of operations, relative
/// to the starting depth: the largest net change over any prefix (at least 0,
/// for the empty prefix).
pub open spec fn peak(ops: Seq<BuildOp>) -> int
    decreases ops.len(),
{
    if ops.len() == 0 {
        0
    } else {
        max(0, op_delta(ops.first()) + peak(ops.drop_first()))
    }
}

/// Within one class, the case-folded name of every direct child — class or
/// action — is unique across both child sequences combined.
pub open spec fn siblings_unique(c: ClassShape) -> bool {
    &&& forall|i: int, j: int|
        0 <= i < j < c.action_names.len() ==> c.action_names[i] != c.action_names[j]
    &&& forall|i: int, j: int|
        0 <= i < j < c.classes.len() ==> (#[trigger] c.classes[i]).name != (
        #[trigger] c.classes[j]).name
    &&& forall|i: int, j: int|
        0 <= i < c.action_names.len() && 0 <= j < c.classes.len() ==> (
        #[trigger] c.action_names[i]) != (#[trigger] c.classes[j]).name
}

/// Every class of the tree, the root included, has pairwise-unique sibling
/// names among its direct children.
pub open spec fn shape_wf(c: ClassShape) -> bool
    decreases c,
    via shape_wf_decreases
{
    siblings_unique(c) && forall|i: int| 0 <= i < c.classes.len() ==> shape_wf(
        #[trigger] c.classes[i],
    )
}

#[via_fn]
proof fn shape_wf_decreases(c: ClassShape) {
    assert forall|i: int| 0 <= i < c.classes.len() implies decreases_to!(c => c.classes[i]) by {
        vstd::seq::axiom_seq_index_decreases(c.classes, i);
    }
}

/// The child that the ancestor at stack index `j` was populating when it was
/// pushed: the next ancestor up, or the current class for the top ancestor.
pub open spec fn chain_child(b: BuilderShape, j: int) -> ClassShape {
    if j == b.parents.len() - 1 {
        b.current
    } else {
        b.parents[j + 1]
    }
}

/// The invariant of every observable builder state: the current class and
/// every open ancestor are well formed, and each ancestor's name check for
/// the child it is waiting on passed — the child's name is still available in
/// it, since the child is attached only when it is closed.
pub open spec fn builder_wf(b: BuilderShape) -> bool {
    &&& shape_wf(b.current)
    &&& forall|j: int| 0 <= j < b.parents.len() ==> shape_wf(#[trigger] b.parents[j])
    &&& forall|j: int|
        0 <= j < b.parents.len() ==> shape_available(
            #[trigger] b.parents[j],
            chain_child(b, j).name,
        )
}

/// The depth of a class tree, counted in edges: a childless class has depth
/// zero.
pub open spec fn depth(c: ClassShape) -> int
    decreases c,
{
    if c.classes.len() == 0 {
        0
    } else {
        1 + max_depth_of(c.classes)
    }
}

/// The largest depth among a sequence of class trees (0 when empty).
pub open spec fn max_depth_of(cs: Seq<ClassShape>) -> int
    decreases cs,
{
    if cs.len() == 0 {
        0
    } else {
        max(depth(cs.last()), max_depth_of(cs.drop_last()))
    }
}

/// The depth, measured from the root, of the deepest node held in a stack of
/// open ancestors: the ancestor at stack index `j` sits at depth `j`, so its
/// subtree reaches depth `j + depth(parents[j])`.
pub open spec fn deepest_in_stack(parents: Seq<ClassShape>) -> int
    decreases parents,
{
    if parents.len() == 0 {
        0
    } else {
        max(deepest_in_stack(parents.drop_last()), parents.len() - 1 + depth(parents.last()))
    }
}

/// The depth, measured from the root, of the deepest node anywhere in a
/// partially built tree: in the stack of open ancestors or in the current
/// class, which sits at depth `parents.len()`.
pub open spec fn deepest(b: BuilderShape) -> int {
    max(deepest_in_stack(b.parents), b.parents.len() + depth(b.current))
}

} // verus!
