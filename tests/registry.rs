use lpbot::builder::{BuildError, RegistryBuilder};
use lpbot::command::{CommandDescriptor, CommandKey, CommandKind};
use lpbot::registry::{ModuleRegistry, RegistryError};

const A: usize = 0;
const B: usize = 1;
const C: usize = 2;

type Builder = RegistryBuilder<&'static str, u32, u32>;

fn abc() -> Builder {
    // A has no dependencies, B needs A, C needs A and B.
    RegistryBuilder::new(vec![vec![], vec![A], vec![A, B]]).unwrap()
}

fn build(b: &mut Builder, target: usize, names: &[&'static str], log: &mut Vec<usize>) {
    let order = b.plan(target).unwrap();
    for id in order {
        log.push(id);
        b.install(id, names[id], vec![], vec![]).unwrap();
    }
}

#[test]
fn build_c_first_builds_each_once_in_dependency_order() {
    let mut b = abc();
    assert_eq!(b.plan(C).unwrap(), vec![A, B, C]);
    let mut log = Vec::new();
    build(&mut b, C, &["a", "b", "c"], &mut log);
    assert_eq!(log, vec![A, B, C]);
    let (reg, _, _) = b.finish();
    assert_eq!(*reg.get(A).unwrap(), "a");
    assert_eq!(*reg.get(B).unwrap(), "b");
    assert_eq!(*reg.get(C).unwrap(), "c");
}

#[test]
fn second_request_plans_nothing_and_keeps_instance() {
    let mut b = abc();
    let mut log = Vec::new();
    build(&mut b, B, &["a1", "b1", "c1"], &mut log);
    assert_eq!(log, vec![A, B]);
    // A is needed by both B and C, yet is not planned again.
    assert_eq!(b.plan(A).unwrap(), Vec::<usize>::new());
    assert_eq!(b.plan(C).unwrap(), vec![C]);
    assert_eq!(b.install(A, "a2", vec![], vec![]), Err(BuildError::AlreadyBuilt(A)));
    assert_eq!(*b.registry().get(A).unwrap(), "a1");
}

#[test]
fn shared_dependency_planned_once() {
    // D(3) needs B and C, both of which need A.
    let b: Builder = RegistryBuilder::new(vec![vec![], vec![A], vec![A], vec![B, C]]).unwrap();
    assert_eq!(b.plan(3).unwrap(), vec![A, B, C, 3]);
}

#[test]
fn cycle_is_refused() {
    let b: Builder = RegistryBuilder::new(vec![vec![B], vec![A], vec![]]).unwrap();
    assert_eq!(b.plan(A), Err(BuildError::DependencyCycle(A)));
    assert_eq!(b.plan(C).unwrap(), vec![C]);
}

#[test]
fn self_dependency_is_a_cycle() {
    let b: Builder = RegistryBuilder::new(vec![vec![A]]).unwrap();
    assert_eq!(b.plan(A), Err(BuildError::DependencyCycle(A)));
}

#[test]
fn unknown_module_and_dependency() {
    let b = abc();
    assert_eq!(b.plan(7), Err(BuildError::UnknownModule(7)));
    let r: Result<Builder, BuildError> = RegistryBuilder::new(vec![vec![], vec![5]]);
    assert!(matches!(r, Err(BuildError::UnknownDependency(5))));
}

#[test]
fn install_before_dependencies_is_refused() {
    let mut b = abc();
    assert_eq!(b.install(C, "c", vec![], vec![]), Err(BuildError::MissingDependency(C, A)));
    assert_eq!(b.install(9, "x", vec![], vec![]), Err(BuildError::UnknownModule(9)));
    assert!(!b.contains(C));
}

#[test]
fn prebuilt_module_is_accepted() {
    let mut b = abc();
    // A module constructed up front is installed before any plan runs.
    b.install(A, "prebuilt", vec![], vec![]).unwrap();
    assert_eq!(b.plan(B).unwrap(), vec![B]);
    assert_eq!(*b.registry().get(A).unwrap(), "prebuilt");
}

#[test]
fn install_registers_commands_and_resolvers() {
    let mut b = abc();
    let d = CommandDescriptor {
        key: CommandKey::new("ping", CommandKind::ChatInput),
        scope: Some(42),
        description: String::new(),
        options: vec![],
        runner: 7u32,
    };
    b.install(A, "a", vec![d], vec![1, 2]).unwrap();
    b.install(B, "b", vec![], vec![3]).unwrap();
    let (_, table, chain) = b.finish();
    let got = table.get(&CommandKey::new("ping", CommandKind::ChatInput)).unwrap();
    assert_eq!(got.runner, 7);
    assert_eq!(got.scope, Some(42));
    assert_eq!(chain.len(), 3);
    assert_eq!((*chain.get(0), *chain.get(1), *chain.get(2)), (1, 2, 3));
}

#[test]
fn registry_lookup_of_missing_module() {
    let r: ModuleRegistry<u8> = ModuleRegistry::new(2);
    assert_eq!(r.get(1), Err(RegistryError::NotRegistered(1)));
    assert_eq!(r.get(5), Err(RegistryError::NotRegistered(5)));
    assert!(!r.contains(0));
}
