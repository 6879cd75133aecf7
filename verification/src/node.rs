//! The tree node model: `SubClass` (a grouping node), `Action` (a leaf node
//! bound to a handler), and the case-insensitive sibling name-collision check
//! that the builder runs before every insertion.
//!
//! Names are canonicalized to lower case at node creation, so every stored
//! name is a case-folded form and later collision checks are plain equality
//! comparisons.

use vstd::prelude::*;

verus! {

/// The case-folded form of a character sequence, as `str::to_lowercase`
/// computes it. The folding is left uninterpreted: only the trusted
/// [`lowercase`] wrapper relates a concrete string to it.
pub uninterp spec fn lower_of(s: Seq<char>) -> Seq<char>;

/// Relies on `str::to_lowercase`: the lowercase equivalent of the input,
/// which depends on the input's characters alone.
#[verifier::external_body]
pub(crate) fn lowercase(s: &str) -> (r: String)
    ensures
        r@ == lower_of(s@),
{
    s.to_lowercase()
}

/// A leaf node: one executable command, bound to the handler that a later
/// dispatcher will invoke. The handler type is left generic so that the
/// caller chooses the callable representation.
pub struct Action<'a, F> {
    /// The case-folded name of the action.
    pub name: String,
    /// Descriptive text, borrowed from caller-owned storage.
    pub help: &'a str,
    /// The stored handler. Nothing here invokes it.
    pub closure: F,
}

/// A grouping node: a named namespace owning its child classes and actions,
/// in insertion order.
pub struct SubClass<'a, F> {
    /// The case-folded name of the class.
    pub name: String,
    /// Descriptive text, borrowed from caller-owned storage.
    pub help: &'a str,
    /// Child classes, first-declared first.
    pub classes: Vec<SubClass<'a, F>>,
    /// Child actions, first-declared first.
    pub actions: Vec<Action<'a, F>>,
}

/// An insertion was rejected because a direct sibling already holds the same
/// case-insensitive name.
#[derive(Debug, PartialEq, Eq, Structural)]
pub enum BuildError {
    /// The name is already held by a sibling class.
    NameExistsAsClass,
    /// The name is already held by a sibling action.
    NameExistsAsAction,
}

/// Whether some direct child action of `c` has the (case-folded) name `n`.
pub open spec fn has_action_named<F>(c: SubClass<F>, n: Seq<char>) -> bool {
    exists|i: int| 0 <= i < c.actions@.len() && (#[trigger] c.actions@[i]).name@ == n
}

/// Whether some direct child class of `c` has the (case-folded) name `n`.
pub open spec fn has_class_named<F>(c: SubClass<F>, n: Seq<char>) -> bool {
    exists|i: int| 0 <= i < c.classes@.len() && (#[trigger] c.classes@[i]).name@ == n
}

/// Whether the (case-folded) name `n` collides with no direct child of `c`,
/// class or action.
pub open spec fn name_available<F>(c: SubClass<F>, n: Seq<char>) -> bool {
    !has_action_named(c, n) && !has_class_named(c, n)
}

/// The error reported for an unavailable name: the action check runs first,
/// so an action collision takes precedence in the report.
pub open spec fn spec_conflict<F>(c: SubClass<F>, n: Seq<char>) -> BuildError {
    if has_action_named(c, n) {
        BuildError::NameExistsAsAction
    } else {
        BuildError::NameExistsAsClass
    }
}

/// What the collision check returns for the (case-folded) name `n` against
/// the children of `c`.
pub open spec fn check_result<F>(c: SubClass<F>, n: Seq<char>) -> Result<(), BuildError> {
    if name_available(c, n) {
        Ok(())
    } else {
        Err(spec_conflict(c, n))
    }
}

/// Checks whether `name`, case-folded, is free among the direct children of
/// `subclass`: actions are scanned first, then classes, so an action
/// collision is the one reported when the name is taken.
pub fn check_names<'a, F>(name: &str, subclass: &SubClass<'a, F>) -> (r: Result<(), BuildError>)
    ensures
        r == check_result(*subclass, lower_of(name@)),
{
    let lwr = lowercase(name);
    let mut i: usize = 0;
    while i < subclass.actions.len()
        invariant
            i <= subclass.actions@.len(),
            lwr@ == lower_of(name@),
            forall|j: int| 0 <= j < i ==> (#[trigger] subclass.actions@[j]).name@ != lower_of(name@),
        decreases subclass.actions@.len() - i,
    {
        if subclass.actions[i].name == lwr {
            assert(has_action_named(*subclass, lower_of(name@)));
            return Err(BuildError::NameExistsAsAction);
        }
        i += 1;
    }
    let mut k: usize = 0;
    while k < subclass.classes.len()
        invariant
            k <= subclass.classes@.len(),
            lwr@ == lower_of(name@),
            !has_action_named(*subclass, lower_of(name@)),
            forall|j: int| 0 <= j < k ==> (#[trigger] subclass.classes@[j]).name@ != lower_of(name@),
        decreases subclass.classes@.len() - k,
    {
        if subclass.classes[k].name == lwr {
            assert(has_class_named(*subclass, lower_of(name@)));
            return Err(BuildError::NameExistsAsClass);
        }
        k += 1;
    }
    Ok(())
}

impl<'a, F> SubClass<'a, F> {
    /// Creates a childless class whose stored name is the case-folded form
    /// of `name` and whose help text is stored verbatim. No sibling
    /// validation happens here: only the builder has sibling context.
    pub fn with_name(name: &str, help_msg: &'a str) -> (r: Self)
        ensures
            r.name@ == lower_of(name@),
            r.help == help_msg,
            r.classes@.len() == 0,
            r.actions@.len() == 0,
    {
        SubClass {
            name: lowercase(name),
            help: help_msg,
            classes: Vec::new(),
            actions: Vec::new(),
        }
    }
}

} // verus!
