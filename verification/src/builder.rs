//! The stack-based, move-chained builder. Each operation consumes the
//! builder value and returns a new one (or an error), so no caller can
//! observe or reuse a half-validated intermediate state. `into_commander`
//! is the only exit that converts the builder into the read-only tree.

use vstd::prelude::*;

use crate::node::BuildError;
use crate::node::SubClass;
use crate::node::check_names;
use crate::node::check_result;
use crate::node::lower_of;
use crate::node::lowercase;
use crate::node::name_available;
use crate::node::spec_conflict;
use crate::node::Action;

verus! {

/// `end_class` was called on a builder with no open ancestor.
#[derive(Debug, PartialEq, Eq, Structural)]
pub enum EndClassError {
    /// The current class is the root, which has no parent to return to.
    NoParent,
}

/// `into_commander` was called while classes remained open.
#[derive(Debug, PartialEq, Eq, Structural)]
pub enum FinalizeError {
    /// One or more `begin_class` calls were not closed by `end_class`.
    UnclosedClasses,
}

/// The finalized, immutable command tree, handed to an external dispatcher.
pub struct Commander<'a, F> {
    /// The fully populated root class.
    pub root: SubClass<'a, F>,
}

/// Assembles a `Commander` tree incrementally, tracking the class currently
/// being populated and the stack of its not-yet-closed ancestors (root-most
/// at the bottom). Every insertion is validated against the current class's
/// children before any mutation.
pub struct CommanderBuilder<'a, F> {
    parents: Vec<SubClass<'a, F>>,
    current: SubClass<'a, F>,
}

impl<'a, F> CommanderBuilder<'a, F> {
    /// The stack of not-yet-closed ancestor classes, root-most first.
    pub closed spec fn spec_parents(self) -> Seq<SubClass<'a, F>> {
        self.parents@
    }

    /// The class currently being populated.
    pub closed spec fn spec_current(self) -> SubClass<'a, F> {
        self.current
    }

    /// Starts a build: the current class is a fresh root named by the
    /// case-folded `root_name`, with a fixed descriptive help string, and
    /// there are no open ancestors.
    pub fn new(root_name: &str) -> (r: Self)
        ensures
            r.spec_parents().len() == 0,
            r.spec_current().name@ == lower_of(root_name@),
            r.spec_current().help@ == "base class of commander tree"@,
            r.spec_current().classes@.len() == 0,
            r.spec_current().actions@.len() == 0,
    {
        CommanderBuilder {
            parents: Vec::new(),
            current: SubClass::with_name(root_name, "base class of commander tree"),
        }
    }

    /// Descends one level into a new, not-yet-attached child class, after
    /// checking that `name` collides with no direct child of the current
    /// class. On a collision nothing is created and the corresponding error
    /// is returned.
    pub fn begin_class(self, name: &str, help_msg: &'a str) -> (r: Result<Self, BuildError>)
        ensures
            r is Ok <==> name_available(self.spec_current(), lower_of(name@)),
            r matches Err(e) ==> e == spec_conflict(self.spec_current(), lower_of(name@)),
            r matches Ok(b) ==> {
                &&& b.spec_parents() == self.spec_parents().push(self.spec_current())
                &&& b.spec_current().name@ == lower_of(name@)
                &&& b.spec_current().help == help_msg
                &&& b.spec_current().classes@.len() == 0
                &&& b.spec_current().actions@.len() == 0
            },
    {
        let CommanderBuilder { mut parents, current } = self;
        match check_names(name, &current) {
            Ok(()) => {
                parents.push(current);
                Ok(CommanderBuilder { parents, current: SubClass::with_name(name, help_msg) })
            },
            Err(e) => Err(e),
        }
    }

    /// Closes the current class: pops the nearest open ancestor, appends the
    /// now-complete current class to that ancestor's child classes, and makes
    /// the ancestor current again. This is the sole point where a subtree
    /// changes ownership. Fails with `NoParent` at the root.
    pub fn end_class(self) -> (r: Result<Self, EndClassError>)
        ensures
            r is Ok <==> self.spec_parents().len() > 0,
            r matches Err(e) ==> e == EndClassError::NoParent,
            r matches Ok(b) ==> {
                let parent = self.spec_parents().last();
                &&& b.spec_parents() == self.spec_parents().drop_last()
                &&& b.spec_current().name == parent.name
                &&& b.spec_current().help == parent.help
                &&& b.spec_current().actions == parent.actions
                &&& b.spec_current().classes@ == parent.classes@.push(self.spec_current())
            },
    {
        let CommanderBuilder { mut parents, current } = self;
        match parents.pop() {
            Some(mut parent) => {
                parent.classes.push(current);
                Ok(CommanderBuilder { parents, current: parent })
            },
            None => Err(EndClassError::NoParent),
        }
    }

    /// Appends a new action, bound to `closure`, to the current class, after
    /// checking that `name` collides with no direct child. Does not change
    /// depth. On a collision nothing is inserted and the corresponding error
    /// is returned.
    pub fn add_action(self, name: &str, help_msg: &'a str, closure: F) -> (r: Result<
        Self,
        BuildError,
    >)
        ensures
            r is Ok <==> name_available(self.spec_current(), lower_of(name@)),
            r matches Err(e) ==> e == spec_conflict(self.spec_current(), lower_of(name@)),
            r matches Ok(b) ==> {
                let acts = b.spec_current().actions@;
                &&& b.spec_parents() == self.spec_parents()
                &&& b.spec_current().name == self.spec_current().name
                &&& b.spec_current().help == self.spec_current().help
                &&& b.spec_current().classes == self.spec_current().classes
                &&& acts == self.spec_current().actions@.push(acts.last())
                &&& acts.last().name@ == lower_of(name@)
                &&& acts.last().help == help_msg
                &&& acts.last().closure == closure
            },
    {
        let CommanderBuilder { parents, mut current } = self;
        match check_names(name, &current) {
            Ok(()) => {
                current.actions.push(Action { name: lowercase(name), help: help_msg, closure });
                Ok(CommanderBuilder { parents, current })
            },
            Err(e) => Err(e),
        }
    }

    /// Finalizes the build: succeeds exactly when every opened class has
    /// been closed, wrapping the fully populated root as the immutable tree.
    /// Fails with `UnclosedClasses` while any class remains open.
    pub fn into_commander(self) -> (r: Result<Commander<'a, F>, FinalizeError>)
        ensures
            r is Ok <==> self.spec_parents().len() == 0,
            r matches Err(e) ==> e == FinalizeError::UnclosedClasses,
            r matches Ok(c) ==> c.root == self.spec_current(),
    {
        let CommanderBuilder { parents, current } = self;
        if parents.len() > 0 {
            Err(FinalizeError::UnclosedClasses)
        } else {
            Ok(Commander { root: current })
        }
    }
}

} // verus!
