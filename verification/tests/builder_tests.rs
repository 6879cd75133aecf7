use commander::Action;
use commander::BuildError;
use commander::CommanderBuilder;
use commander::EndClassError;
use commander::FinalizeError;
use commander::SubClass;
use commander::check_names;

#[test]
fn subclass_with_name_test() {
    let sc: SubClass<fn(&[&str])> = SubClass::with_name("NAME", "Help Message");
    assert_eq!(&sc.name, "name");
    assert_eq!(sc.help, "Help Message");
}

#[test]
fn check_names_test() {
    let mut sc: SubClass<fn(&[&str])> = SubClass::with_name("name", "adsf");
    assert_eq!(check_names("name1", &sc), Ok(()));
    sc.classes.push(SubClass::with_name("sub-name", "asdf"));
    assert_eq!(check_names("name1", &sc), Ok(()));
    assert_eq!(check_names("sub-name", &sc), Err(BuildError::NameExistsAsClass));
    sc.actions.push(Action {
        name: "name1".to_string(),
        help: "adf",
        closure: |_: &[&str]| {},
    });
    assert_eq!(check_names("name1", &sc), Err(BuildError::NameExistsAsAction));
}

#[test]
fn root_class_test() {
    let b = CommanderBuilder::<fn(&[&str])>::new("ROOT");
    let tree = b.into_commander().unwrap();
    assert_eq!(&tree.root.name, "root");
    assert_eq!(tree.root.help, "base class of commander tree");
    assert_eq!(tree.root.classes.len(), 0);
    assert_eq!(tree.root.actions.len(), 0);
}

#[test]
fn action_name_collision_test() {
    let b = CommanderBuilder::<fn(&[&str])>::new("root");
    let b = b.begin_class("Users", "user commands").unwrap();
    let b = b.add_action("list", "list users", |_: &[&str]| {}).unwrap();
    let r = b.add_action("LIST", "list users again", |_: &[&str]| {});
    assert!(matches!(r, Err(BuildError::NameExistsAsAction)));
}

#[test]
fn class_name_collision_test() {
    let b = CommanderBuilder::<fn(&[&str])>::new("root");
    let b = b.begin_class("users", "first subtree").unwrap();
    let b = b.end_class().unwrap();
    let r = b.begin_class("Users", "second subtree");
    assert!(matches!(r, Err(BuildError::NameExistsAsClass)));
}

#[test]
fn class_then_action_collision_test() {
    let b = CommanderBuilder::<fn(&[&str])>::new("root");
    let b = b.begin_class("Foo", "a class").unwrap();
    let b = b.end_class().unwrap();
    let r = b.add_action("foo", "an action", |_: &[&str]| {});
    assert!(matches!(r, Err(BuildError::NameExistsAsClass)));
}

#[test]
fn action_then_class_collision_test() {
    let b = CommanderBuilder::<fn(&[&str])>::new("root");
    let b = b.add_action("BAR", "an action", |_: &[&str]| {}).unwrap();
    let r = b.begin_class("bar", "a class");
    assert!(matches!(r, Err(BuildError::NameExistsAsAction)));
}

#[test]
fn nested_build_test() {
    let b = CommanderBuilder::<fn(&[&str])>::new("root");
    let b = b.begin_class("a", "class a").unwrap();
    let b = b.begin_class("b", "class b").unwrap();
    let b = b.end_class().unwrap();
    let b = b.end_class().unwrap();
    let tree = b.into_commander().unwrap();
    assert_eq!(tree.root.classes.len(), 1);
    let a = &tree.root.classes[0];
    assert_eq!(&a.name, "a");
    assert_eq!(a.actions.len(), 0);
    assert_eq!(a.classes.len(), 1);
    let inner = &a.classes[0];
    assert_eq!(&inner.name, "b");
    assert_eq!(inner.actions.len(), 0);
    assert_eq!(inner.classes.len(), 0);
}

#[test]
fn unclosed_class_test() {
    let b = CommanderBuilder::<fn(&[&str])>::new("root");
    let b = b.begin_class("a", "class a").unwrap();
    let r = b.into_commander();
    assert!(matches!(r, Err(FinalizeError::UnclosedClasses)));
}

#[test]
fn end_class_at_root_test() {
    let b = CommanderBuilder::<fn(&[&str])>::new("root");
    let r = b.end_class();
    assert!(matches!(r, Err(EndClassError::NoParent)));
}

#[test]
fn sibling_order_test() {
    let b = CommanderBuilder::<fn(&[&str])>::new("root");
    let b = b.begin_class("alpha", "first class").unwrap();
    let b = b.end_class().unwrap();
    let b = b.begin_class("beta", "second class").unwrap();
    let b = b.end_class().unwrap();
    let b = b.add_action("run", "first action", |_: &[&str]| {}).unwrap();
    let b = b.add_action("stop", "second action", |_: &[&str]| {}).unwrap();
    let tree = b.into_commander().unwrap();
    assert_eq!(tree.root.classes.len(), 2);
    assert_eq!(&tree.root.classes[0].name, "alpha");
    assert_eq!(&tree.root.classes[1].name, "beta");
    assert_eq!(tree.root.actions.len(), 2);
    assert_eq!(&tree.root.actions[0].name, "run");
    assert_eq!(&tree.root.actions[1].name, "stop");
}

#[test]
fn deep_nesting_depth_test() {
    let b = CommanderBuilder::<fn(&[&str])>::new("root");
    let b = b.begin_class("a", "level one").unwrap();
    let b = b.begin_class("b", "level two").unwrap();
    let b = b.begin_class("c", "level three").unwrap();
    let b = b.end_class().unwrap();
    let b = b.end_class().unwrap();
    let b = b.end_class().unwrap();
    let tree = b.into_commander().unwrap();
    let deepest = &tree.root.classes[0].classes[0].classes[0];
    assert_eq!(&deepest.name, "c");
    assert_eq!(deepest.classes.len(), 0);
}

#[test]
fn help_text_preserved_test() {
    let b = CommanderBuilder::<fn(&[&str])>::new("root");
    let b = b.begin_class("net", "Network Commands").unwrap();
    let b = b.add_action("PING", "Ping A Host", |_: &[&str]| {}).unwrap();
    let b = b.end_class().unwrap();
    let tree = b.into_commander().unwrap();
    let net = &tree.root.classes[0];
    assert_eq!(&net.name, "net");
    assert_eq!(net.help, "Network Commands");
    assert_eq!(&net.actions[0].name, "ping");
    assert_eq!(net.actions[0].help, "Ping A Host");
}

#[test]
fn handler_invocable_test() {
    let b = CommanderBuilder::<fn(&[&str])>::new("root");
    let b = b
        .add_action("greet", "greets", |args: &[&str]| {
            assert_eq!(args.len(), 2);
        })
        .unwrap();
    let tree = b.into_commander().unwrap();
    (tree.root.actions[0].closure)(&["hello", "world"]);
    (tree.root.actions[0].closure)(&["again", "twice"]);
}

#[test]
fn sibling_scopes_independent_test() {
    // The uniqueness invariant binds direct siblings only: the same name may
    // recur at different depths or under different parents.
    let b = CommanderBuilder::<fn(&[&str])>::new("root");
    let b = b.begin_class("admin", "first parent").unwrap();
    let b = b.add_action("list", "list admins", |_: &[&str]| {}).unwrap();
    let b = b.end_class().unwrap();
    let b = b.begin_class("guest", "second parent").unwrap();
    let b = b.add_action("list", "list guests", |_: &[&str]| {}).unwrap();
    let b = b.begin_class("admin", "nested, different scope").unwrap();
    let b = b.end_class().unwrap();
    let b = b.end_class().unwrap();
    let tree = b.into_commander().unwrap();
    assert_eq!(&tree.root.classes[0].actions[0].name, "list");
    assert_eq!(&tree.root.classes[1].actions[0].name, "list");
    assert_eq!(&tree.root.classes[1].classes[0].name, "admin");
}

#[test]
fn failed_insertion_mutates_nothing_test() {
    let mut sc: SubClass<fn(&[&str])> = SubClass::with_name("parent", "parent help");
    sc.classes.push(SubClass::with_name("taken", "child help"));
    assert_eq!(check_names("TAKEN", &sc), Err(BuildError::NameExistsAsClass));
    assert_eq!(sc.classes.len(), 1);
    assert_eq!(sc.actions.len(), 0);
}
