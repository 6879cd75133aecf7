//! Build-wide laws, proved from the builder's and node model's contracts.

use vstd::math::max;
use vstd::prelude::*;

use crate::builder::CommanderBuilder;
use crate::node::Action;
use crate::node::BuildError;
use crate::node::SubClass;
use crate::node::check_result;
use crate::node::has_action_named;
use crate::node::has_class_named;
use crate::node::name_available;
use crate::shape::BuildOp;
use crate::shape::BuilderShape;
use crate::shape::ClassShape;
use crate::shape::builder_wf;
use crate::shape::chain_child;
use crate::shape::shape_available;
use crate::shape::shape_wf;
use crate::shape::siblings_unique;
use crate::shape::builder_shape;
use crate::shape::class_shape;
use crate::shape::deepest;
use crate::shape::deepest_in_stack;
use crate::shape::depth;
use crate::shape::max_depth_of;
use crate::shape::net;
use crate::shape::peak;
use crate::shape::run;
use crate::shape::shape_has_action;
use crate::shape::shape_has_class;
use crate::shape::shapes_of;
use crate::shape::step;

verus! {

/// Law: of two insertions attempted with the same case-insensitive name as
/// direct siblings, the second fails with `NameExistsAsAction` when the
/// first inserted an action. Stored names are case-folded at creation, so
/// two raw names that differ only in case both denote the folded name `n`
/// here, and `check_result` is what every insertion consults.
pub proof fn lemma_second_insertion_fails_as_action<'a, F>(
    parent: SubClass<'a, F>,
    a: Action<'a, F>,
    after: SubClass<'a, F>,
    n: Seq<char>,
)
    requires
        a.name@ == n,
        after.actions@ == parent.actions@.push(a),
    ensures
        check_result(after, n) == Err::<(), BuildError>(BuildError::NameExistsAsAction),
{
    assert(after.actions@[after.actions@.len() - 1].name@ == n);
}

/// Law: of two insertions attempted with the same case-insensitive name as
/// direct siblings, the second fails with `NameExistsAsClass` when the first
/// inserted a class. The first insertion was itself validated, so no sibling
/// action holds the name.
pub proof fn lemma_second_insertion_fails_as_class<'a, F>(
    parent: SubClass<'a, F>,
    child: SubClass<'a, F>,
    after: SubClass<'a, F>,
    n: Seq<char>,
)
    requires
        name_available(parent, n),
        child.name@ == n,
        after.classes@ == parent.classes@.push(child),
        after.actions@ == parent.actions@,
    ensures
        check_result(after, n) == Err::<(), BuildError>(BuildError::NameExistsAsClass),
{
    assert(after.classes@[after.classes@.len() - 1].name@ == n);
    if has_action_named(after, n) {
        let i = choose|i: int|
            0 <= i < after.actions@.len() && (#[trigger] after.actions@[i]).name@ == n;
        assert(parent.actions@[i].name@ == n);
    }
}

proof fn lemma_max_depth_of_nonneg(cs: Seq<ClassShape>)
    ensures
        max_depth_of(cs) >= 0,
    decreases cs.len(),
{
    if cs.len() > 0 {
        lemma_max_depth_of_nonneg(cs.drop_last());
    }
}

proof fn lemma_depth_nonneg(c: ClassShape)
    ensures
        depth(c) >= 0,
{
    if c.classes.len() > 0 {
        lemma_max_depth_of_nonneg(c.classes);
    }
}

/// Attaching one more child class deepens a class tree exactly to the
/// larger of its old depth and one more than the child's depth.
proof fn lemma_depth_after_attach(p: ClassShape, c: ClassShape, p2: ClassShape)
    requires
        p2.classes == p.classes.push(c),
    ensures
        depth(p2) == max(depth(p), 1 + depth(c)),
{
    lemma_max_depth_of_nonneg(p.classes);
    lemma_depth_nonneg(c);
    assert(p.classes.push(c).drop_last() =~= p.classes);
}

proof fn lemma_deepest_in_stack_nonneg(s: Seq<ClassShape>)
    ensures
        deepest_in_stack(s) >= 0,
    decreases s.len(),
{
    if s.len() > 0 {
        lemma_deepest_in_stack_nonneg(s.drop_last());
    }
}

proof fn lemma_deepest_in_stack_push(s: Seq<ClassShape>, c: ClassShape)
    ensures
        deepest_in_stack(s.push(c)) == max(deepest_in_stack(s), s.len() + depth(c)),
{
    assert(s.push(c).drop_last() =~= s);
}

proof fn lemma_peak_nonneg(ops: Seq<BuildOp>)
    ensures
        peak(ops) >= 0,
{
}

/// Replaying a successful run of operations, the number of open ancestors
/// moves by the net nesting change, and the deepest node reached anywhere in
/// the partially built tree is the larger of the deepest node already there
/// and the maximum nesting depth the operations reach.
proof fn lemma_run_tracks(b: BuilderShape, ops: Seq<BuildOp>)
    requires
        run(b, ops) is Some,
    ensures
        ({
            let b2 = run(b, ops)->Some_0;
            &&& b2.parents.len() == b.parents.len() + net(ops)
            &&& deepest(b2) == max(deepest(b), b.parents.len() + peak(ops))
        }),
    decreases ops.len(),
{
    lemma_depth_nonneg(b.current);
    lemma_deepest_in_stack_nonneg(b.parents);
    if ops.len() > 0 {
        let op = ops.first();
        let bm = step(b, op)->Some_0;
        lemma_run_tracks(bm, ops.drop_first());
        lemma_peak_nonneg(ops.drop_first());
        match op {
            BuildOp::Begin(n) => {
                lemma_deepest_in_stack_push(b.parents, b.current);
            },
            BuildOp::End => {
                let p = b.parents.last();
                lemma_depth_after_attach(p, b.current, bm.current);
            },
        }
    }
}

/// Law: a build whose `begin_class` / `end_class` operations all succeeded
/// and whose nesting is balanced (net nesting change zero; no `end_class`
/// outran its `begin_class`, since every operation succeeded) leaves no open
/// ancestor — so finalizing succeeds — and the depth of the resulting tree
/// equals the maximum nesting depth the build reached.
pub proof fn lemma_balanced_build_finalizes(root: ClassShape, ops: Seq<BuildOp>)
    requires
        root.classes.len() == 0,
        run(BuilderShape { parents: Seq::empty(), current: root }, ops) is Some,
        net(ops) == 0,
    ensures
        ({
            let b2 = run(BuilderShape { parents: Seq::empty(), current: root }, ops)->Some_0;
            &&& b2.parents.len() == 0
            &&& depth(b2.current) == peak(ops)
        }),
{
    let b = BuilderShape { parents: Seq::empty(), current: root };
    lemma_run_tracks(b, ops);
    lemma_peak_nonneg(ops);
    let b2 = run(b, ops)->Some_0;
    lemma_depth_nonneg(b2.current);
    lemma_deepest_in_stack_nonneg(b2.parents);
}

/// The shapes of a sequence of classes are its classes' shapes, index by
/// index.
proof fn lemma_shapes_of_index<F>(cs: Seq<SubClass<F>>)
    ensures
        shapes_of(cs).len() == cs.len(),
        forall|i: int| 0 <= i < cs.len() ==> shapes_of(cs)[i] == class_shape(cs[i]),
    decreases cs.len(),
{
    if cs.len() > 0 {
        lemma_shapes_of_index(cs.drop_last());
        assert forall|i: int| 0 <= i < cs.len() implies shapes_of(cs)[i] == class_shape(cs[i]) by {
            if i < cs.len() - 1 {
                assert(cs.drop_last()[i] == cs[i]);
                assert(shapes_of(cs)[i] == shapes_of(cs.drop_last())[i]);
            }
        }
    }
}

/// Name availability against a class is name availability against its shape.
proof fn lemma_available_shape<F>(c: SubClass<F>, n: Seq<char>)
    ensures
        shape_has_action(class_shape(c), n) <==> has_action_named(c, n),
        shape_has_class(class_shape(c), n) <==> has_class_named(c, n),
{
    let s = class_shape(c);
    lemma_shapes_of_index(c.classes@);
    if has_action_named(c, n) {
        let i = choose|i: int|
            0 <= i < c.actions@.len() && (#[trigger] c.actions@[i]).name@ == n;
        assert(s.action_names[i] == n);
    }
    if shape_has_action(s, n) {
        let i = choose|i: int| 0 <= i < s.action_names.len() && s.action_names[i] == n;
        assert(c.actions@[i].name@ == n);
    }
    if has_class_named(c, n) {
        let i = choose|i: int|
            0 <= i < c.classes@.len() && (#[trigger] c.classes@[i]).name@ == n;
        assert((#[trigger] s.classes[i]).name == n);
    }
    if shape_has_class(s, n) {
        let i = choose|i: int| 0 <= i < s.classes.len() && (#[trigger] s.classes[i]).name == n;
        assert(c.classes@[i].name@ == n);
    }
}

/// What `begin_class` promises on success steps the builder's shape by
/// `Begin` with the case-folded name `n`.
pub proof fn lemma_begin_class_steps_shape<'a, F>(
    b: CommanderBuilder<'a, F>,
    b2: CommanderBuilder<'a, F>,
    n: Seq<char>,
)
    requires
        name_available(b.spec_current(), n),
        b2.spec_parents() == b.spec_parents().push(b.spec_current()),
        b2.spec_current().name@ == n,
        b2.spec_current().classes@.len() == 0,
        b2.spec_current().actions@.len() == 0,
    ensures
        step(builder_shape(b), BuildOp::Begin(n)) == Some(builder_shape(b2)),
{
    lemma_available_shape(b.spec_current(), n);
    let stepped = step(builder_shape(b), BuildOp::Begin(n))->Some_0;
    assert(b.spec_parents().push(b.spec_current()).drop_last() =~= b.spec_parents());
    assert(stepped.parents == builder_shape(b2).parents);
    assert(class_shape(b2.spec_current()).action_names =~= Seq::<Seq<char>>::empty());
    assert(class_shape(b2.spec_current()).classes =~= Seq::<ClassShape>::empty());
    assert(stepped.current == builder_shape(b2).current);
}

/// What `end_class` promises on success steps the builder's shape by `End`.
pub proof fn lemma_end_class_steps_shape<'a, F>(
    b: CommanderBuilder<'a, F>,
    b2: CommanderBuilder<'a, F>,
)
    requires
        b.spec_parents().len() > 0,
        b2.spec_parents() == b.spec_parents().drop_last(),
        b2.spec_current().name == b.spec_parents().last().name,
        b2.spec_current().help == b.spec_parents().last().help,
        b2.spec_current().actions == b.spec_parents().last().actions,
        b2.spec_current().classes@ == b.spec_parents().last().classes@.push(b.spec_current()),
    ensures
        step(builder_shape(b), BuildOp::End) == Some(builder_shape(b2)),
{
    let p = b.spec_parents().last();
    let stepped = step(builder_shape(b), BuildOp::End)->Some_0;
    lemma_shapes_of_index(b.spec_parents());
    lemma_shapes_of_index(b.spec_parents().drop_last());
    assert forall|i: int|
        0 <= i < b.spec_parents().drop_last().len() implies shapes_of(b.spec_parents())[i]
        == shapes_of(b.spec_parents().drop_last())[i] by {
        assert(b.spec_parents().drop_last()[i] == b.spec_parents()[i]);
    }
    assert(shapes_of(b.spec_parents()).drop_last() =~= shapes_of(b.spec_parents().drop_last()));
    assert(stepped.parents == builder_shape(b2).parents);
    assert(shapes_of(b.spec_parents()).last() == class_shape(p));
    assert(class_shape(b2.spec_current()).action_names =~= class_shape(p).action_names);
    assert(p.classes@.push(b.spec_current()).drop_last() =~= p.classes@);
    assert(class_shape(b2.spec_current()).classes == shapes_of(p.classes@).push(
        class_shape(b.spec_current()),
    ));
    assert(stepped.current == builder_shape(b2).current);
}

/// What `new` promises makes the builder's shape a fresh start: no open
/// ancestors, a childless root, and the builder invariant holds.
pub proof fn lemma_new_builder_shape<'a, F>(b: CommanderBuilder<'a, F>)
    requires
        b.spec_parents().len() == 0,
        b.spec_current().classes@.len() == 0,
        b.spec_current().actions@.len() == 0,
    ensures
        builder_shape(b).parents == Seq::<ClassShape>::empty(),
        builder_shape(b).current.classes == Seq::<ClassShape>::empty(),
        builder_wf(builder_shape(b)),
{
    assert(builder_shape(b).parents =~= Seq::<ClassShape>::empty());
    assert(builder_shape(b).current.classes =~= Seq::<ClassShape>::empty());
    assert(builder_shape(b).current.action_names =~= Seq::<Seq<char>>::empty());
}

/// What `add_action` promises on success changes the builder's shape by
/// appending the case-folded action name `n` to the current class's action
/// names, and nothing else.
pub proof fn lemma_add_action_shape<'a, F>(
    b: CommanderBuilder<'a, F>,
    b2: CommanderBuilder<'a, F>,
    n: Seq<char>,
)
    requires
        b2.spec_parents() == b.spec_parents(),
        b2.spec_current().name == b.spec_current().name,
        b2.spec_current().classes == b.spec_current().classes,
        b2.spec_current().actions@ == b.spec_current().actions@.push(
            b2.spec_current().actions@.last(),
        ),
        b2.spec_current().actions@.last().name@ == n,
    ensures
        builder_shape(b2).parents == builder_shape(b).parents,
        builder_shape(b2).current.name == builder_shape(b).current.name,
        builder_shape(b2).current.classes == builder_shape(b).current.classes,
        builder_shape(b2).current.action_names == builder_shape(b).current.action_names.push(n),
{
    assert(class_shape(b2.spec_current()).action_names =~= class_shape(
        b.spec_current(),
    ).action_names.push(n));
}

/// Law: the sibling-uniqueness invariant holds at every observable builder
/// state — every operation that `step` models (`begin_class`, `end_class`)
/// preserves it.
pub proof fn lemma_step_preserves_wf(b: BuilderShape, op: BuildOp, b2: BuilderShape)
    requires
        builder_wf(b),
        step(b, op) == Some(b2),
    ensures
        builder_wf(b2),
{
    let len = b.parents.len() as int;
    match op {
        BuildOp::Begin(n) => {
            assert(shape_wf(b2.current));
            assert forall|j: int| 0 <= j < b2.parents.len() implies shape_wf(
                #[trigger] b2.parents[j],
            ) by {
                if j < len {
                    assert(b2.parents[j] == b.parents[j]);
                    assert(shape_wf(b.parents[j]));
                } else {
                    assert(b2.parents[j] == b.current);
                }
            }
            assert forall|j: int| 0 <= j < b2.parents.len() implies shape_available(
                #[trigger] b2.parents[j],
                chain_child(b2, j).name,
            ) by {
                if j < len {
                    assert(b2.parents[j] == b.parents[j]);
                    assert(shape_available(b.parents[j], chain_child(b, j).name));
                    if j < len - 1 {
                        assert(chain_child(b2, j) == b.parents[j + 1]);
                        assert(chain_child(b, j) == b.parents[j + 1]);
                    } else {
                        assert(b2.parents[len] == b.current);
                        assert(chain_child(b2, j) == b.current);
                        assert(chain_child(b, j) == b.current);
                    }
                } else {
                    assert(b2.parents[j] == b.current);
                    assert(chain_child(b2, j) == b2.current);
                }
            }
        },
        BuildOp::End => {
            let p = b.parents.last();
            let cur = b.current;
            assert(p == b.parents[len - 1]);
            assert(shape_wf(p));
            assert(chain_child(b, len - 1) == cur);
            assert(shape_available(p, cur.name));
            let attached = b2.current;
            assert(attached.classes == p.classes.push(cur));
            assert(siblings_unique(attached)) by {
                assert forall|i: int, j: int|
                    0 <= i < j < attached.classes.len() implies (
                #[trigger] attached.classes[i]).name != (#[trigger] attached.classes[j]).name by {
                    if j < p.classes.len() {
                        assert(attached.classes[i] == p.classes[i]);
                        assert(attached.classes[j] == p.classes[j]);
                    } else {
                        assert(attached.classes[j] == cur);
                        assert(attached.classes[i] == p.classes[i]);
                        if p.classes[i].name == cur.name {
                            assert(shape_has_class(p, cur.name));
                        }
                    }
                }
                assert forall|i: int, j: int|
                    0 <= i < attached.action_names.len() && 0 <= j
                        < attached.classes.len() implies (#[trigger] attached.action_names[i]) != (
                #[trigger] attached.classes[j]).name by {
                    if j < p.classes.len() {
                        assert(attached.classes[j] == p.classes[j]);
                    } else {
                        assert(attached.classes[j] == cur);
                        if p.action_names[i] == cur.name {
                            assert(shape_has_action(p, cur.name));
                        }
                    }
                }
            }
            assert forall|i: int| 0 <= i < attached.classes.len() implies shape_wf(
                #[trigger] attached.classes[i],
            ) by {
                if i < p.classes.len() {
                    assert(attached.classes[i] == p.classes[i]);
                    assert(shape_wf(p.classes[i]));
                } else {
                    assert(attached.classes[i] == cur);
                }
            }
            assert(shape_wf(attached));
            assert forall|j: int| 0 <= j < b2.parents.len() implies shape_wf(
                #[trigger] b2.parents[j],
            ) by {
                assert(b2.parents[j] == b.parents[j]);
                assert(shape_wf(b.parents[j]));
            }
            assert forall|j: int| 0 <= j < b2.parents.len() implies shape_available(
                #[trigger] b2.parents[j],
                chain_child(b2, j).name,
            ) by {
                assert(b2.parents[j] == b.parents[j]);
                assert(shape_available(b.parents[j], chain_child(b, j).name));
                if j < len - 2 {
                    assert(chain_child(b2, j) == b2.parents[j + 1]);
                    assert(b2.parents[j + 1] == b.parents[j + 1]);
                    assert(chain_child(b, j) == b.parents[j + 1]);
                } else {
                    assert(chain_child(b2, j) == attached);
                    assert(attached.name == p.name);
                    assert(b.parents[j + 1] == p);
                    assert(chain_child(b, j) == p);
                }
            }
        },
    }
}

/// Law: inserting an action whose case-folded name is available in the
/// current class — exactly what a successful `add_action` does — preserves
/// the builder invariant.
pub proof fn lemma_insert_action_preserves_wf(b: BuilderShape, n: Seq<char>, b2: BuilderShape)
    requires
        builder_wf(b),
        shape_available(b.current, n),
        b2.parents == b.parents,
        b2.current.name == b.current.name,
        b2.current.classes == b.current.classes,
        b2.current.action_names == b.current.action_names.push(n),
    ensures
        builder_wf(b2),
{
    let c = b.current;
    let c2 = b2.current;
    assert(siblings_unique(c2)) by {
        assert forall|i: int, j: int|
            0 <= i < j < c2.action_names.len() implies c2.action_names[i]
            != c2.action_names[j] by {
            if j < c.action_names.len() {
                assert(c2.action_names[i] == c.action_names[i]);
                assert(c2.action_names[j] == c.action_names[j]);
            } else {
                assert(c2.action_names[j] == n);
                assert(c2.action_names[i] == c.action_names[i]);
                if c.action_names[i] == n {
                    assert(shape_has_action(c, n));
                }
            }
        }
        assert forall|i: int, j: int|
            0 <= i < c2.action_names.len() && 0 <= j < c2.classes.len() implies (
        #[trigger] c2.action_names[i]) != (#[trigger] c2.classes[j]).name by {
            assert(c2.classes[j] == c.classes[j]);
            if i < c.action_names.len() {
                assert(c2.action_names[i] == c.action_names[i]);
            } else {
                assert(c2.action_names[i] == n);
                if c.classes[j].name == n {
                    assert(shape_has_class(c, n));
                }
            }
        }
    }
    assert forall|i: int| 0 <= i < c2.classes.len() implies shape_wf(#[trigger] c2.classes[i]) by {
        assert(c2.classes[i] == c.classes[i]);
        assert(shape_wf(c.classes[i]));
    }
    assert(shape_wf(c2));
    assert forall|j: int| 0 <= j < b2.parents.len() implies shape_available(
        #[trigger] b2.parents[j],
        chain_child(b2, j).name,
    ) by {
        assert(b2.parents[j] == b.parents[j]);
        assert(shape_available(b.parents[j], chain_child(b, j).name));
        if j < b.parents.len() - 1 {
            assert(chain_child(b2, j) == b2.parents[j + 1]);
            assert(chain_child(b, j) == b.parents[j + 1]);
        } else {
            assert(chain_child(b2, j) == c2);
            assert(chain_child(b, j) == c);
        }
    }
    assert forall|j: int| 0 <= j < b2.parents.len() implies shape_wf(#[trigger] b2.parents[j]) by {
        assert(b2.parents[j] == b.parents[j]);
        assert(shape_wf(b.parents[j]));
    }
}

} // verus!
