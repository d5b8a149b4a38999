use std::cell::RefCell;
use std::rc::Rc;
use timetrackrs::conditional::{ask_group, choose_branch, decide_group, Branch, Conditional};
use timetrackrs::interpreter::{
    run_body, run_each, Condition, ConditionalFn, ExecError, Executable, Expected, Instruction,
    Predicate,
};
use timetrackrs::iterative::Iterative;
use timetrackrs::value::{Variable, VariableMapType};

type Log = Rc<RefCell<Vec<String>>>;

fn key(name: &str) -> Rc<String> {
    Rc::new(name.to_string())
}

fn note(log: &Log, line: &str) -> Box<dyn Executable> {
    let log = log.clone();
    let line = line.to_string();
    Instruction::new(move |_env: &mut VariableMapType| {
        log.borrow_mut().push(line.clone());
        Ok(())
    })
    .into()
}

fn fail(log: &Log, line: &str) -> Box<dyn Executable> {
    let log = log.clone();
    let line = line.to_string();
    Instruction::new(move |_env: &mut VariableMapType| {
        log.borrow_mut().push(line.clone());
        Err(ExecError::Failed { reason: line.clone() })
    })
    .into()
}

fn answer(log: &Log, line: &str, value: bool) -> ConditionalFn {
    let log = log.clone();
    let line = line.to_string();
    Predicate::new(move |_env: &mut VariableMapType| {
        log.borrow_mut().push(line.clone());
        value
    })
    .into()
}

fn lines(log: &Log) -> Vec<String> {
    log.borrow().clone()
}

fn mapping(entries: &[(&str, usize)]) -> Variable {
    let mut map = VariableMapType::default();
    for (name, value) in entries {
        map.insert(key(name), Variable::Int(*value));
    }
    Variable::Mapping(map)
}

#[test]
fn last_predicate_of_a_group_decides() {
    let log = Log::default();
    let mut node = Conditional::default();
    node.conditions.push(vec![answer(&log, "first", true), answer(&log, "second", false)]);
    node.executables.push(note(&log, "body"));
    let mut env = VariableMapType::default();
    assert_eq!(node.execute(&mut env), Err(ExecError::NoBranchTaken));
    assert_eq!(lines(&log), vec!["first", "second"]);

    let log = Log::default();
    let mut node = Conditional::default();
    node.conditions.push(vec![answer(&log, "first", false), answer(&log, "second", true)]);
    node.executables.push(note(&log, "body"));
    assert_eq!(node.execute(&mut env), Ok(()));
    assert_eq!(lines(&log), vec!["first", "second", "body"]);
}

#[test]
fn group_outcome_is_the_last_answer() {
    assert!(!decide_group(&vec![]));
    assert!(decide_group(&vec![true]));
    assert!(!decide_group(&vec![false]));
    assert!(!decide_group(&vec![true, false]));
    assert!(decide_group(&vec![false, true]));
    assert!(!decide_group(&vec![true, true, false]));
    assert!(decide_group(&vec![false, false, true]));
}

#[test]
fn branch_follows_match_then_chain_then_else() {
    assert_eq!(choose_branch(true, false, false), Branch::Body);
    assert_eq!(choose_branch(true, true, true), Branch::Body);
    assert_eq!(choose_branch(false, true, false), Branch::ElseIf);
    assert_eq!(choose_branch(false, true, true), Branch::ElseIf);
    assert_eq!(choose_branch(false, false, true), Branch::Else);
    assert_eq!(choose_branch(false, false, false), Branch::Nothing);
}

#[test]
fn first_matching_group_runs_the_body_once() {
    let log = Log::default();
    let mut node = Conditional::default();
    node.conditions.push(vec![answer(&log, "g1", false)]);
    node.conditions.push(vec![]);
    node.conditions.push(vec![answer(&log, "g3", true)]);
    node.conditions.push(vec![answer(&log, "g4", true)]);
    node.executables.push(note(&log, "b1"));
    node.executables.push(note(&log, "b2"));
    node.else_executables = Some(vec![note(&log, "else")]);
    let mut env = VariableMapType::default();
    assert_eq!(node.execute(&mut env), Ok(()));
    assert_eq!(lines(&log), vec!["g1", "g3", "b1", "b2"]);
}

#[test]
fn body_failure_stops_the_body_and_fails_the_conditional() {
    let log = Log::default();
    let mut node = Conditional::default();
    node.conditions.push(vec![answer(&log, "g", true)]);
    node.executables.push(note(&log, "b1"));
    node.executables.push(fail(&log, "b2"));
    node.executables.push(note(&log, "b3"));
    node.else_executables = Some(vec![note(&log, "else")]);
    let mut env = VariableMapType::default();
    assert_eq!(node.execute(&mut env), Err(ExecError::Failed { reason: "b2".to_string() }));
    assert_eq!(lines(&log), vec!["g", "b1", "b2"]);
}

#[test]
fn else_body_runs_without_a_chain() {
    let log = Log::default();
    let mut node = Conditional::default();
    node.conditions.push(vec![answer(&log, "g", false)]);
    node.executables.push(note(&log, "body"));
    node.else_executables = Some(vec![note(&log, "e1"), note(&log, "e2")]);
    let mut env = VariableMapType::default();
    assert_eq!(node.execute(&mut env), Ok(()));
    assert_eq!(lines(&log), vec!["g", "e1", "e2"]);

    let log = Log::default();
    let mut node = Conditional::default();
    node.else_executables = Some(vec![note(&log, "e1"), fail(&log, "e2"), note(&log, "e3")]);
    assert_eq!(node.execute(&mut env), Err(ExecError::Failed { reason: "e2".to_string() }));
    assert_eq!(lines(&log), vec!["e1", "e2"]);
}

#[test]
fn chain_takes_the_first_conditional_that_succeeds() {
    let log = Log::default();
    let mut first = Conditional::default();
    first.conditions.push(vec![answer(&log, "c1", false)]);
    first.executables.push(note(&log, "c1-body"));
    let mut second = Conditional::default();
    second.conditions.push(vec![answer(&log, "c2", true)]);
    second.executables.push(fail(&log, "c2-body"));
    let mut third = Conditional::default();
    third.conditions.push(vec![answer(&log, "c3", true)]);
    third.executables.push(note(&log, "c3-body"));
    let mut fourth = Conditional::default();
    fourth.conditions.push(vec![answer(&log, "c4", true)]);
    let mut node = Conditional::default();
    node.conditions.push(vec![answer(&log, "g", false)]);
    node.else_if_conditionals = Some(vec![first, second, third, fourth]);
    node.else_executables = Some(vec![note(&log, "else")]);
    let mut env = VariableMapType::default();
    assert_eq!(node.execute(&mut env), Ok(()));
    assert_eq!(lines(&log), vec!["g", "c1", "c2", "c2-body", "c3", "c3-body"]);
}

#[test]
fn chain_that_fails_does_not_fall_back_to_else() {
    let log = Log::default();
    let mut inner = Conditional::default();
    inner.conditions.push(vec![answer(&log, "c1", false)]);
    let mut node = Conditional::default();
    node.else_if_conditionals = Some(vec![inner]);
    node.else_executables = Some(vec![note(&log, "else")]);
    let mut env = VariableMapType::default();
    assert_eq!(node.execute(&mut env), Err(ExecError::NoBranchTaken));
    assert_eq!(lines(&log), vec!["c1"]);

    let mut node = Conditional::default();
    node.else_if_conditionals = Some(vec![]);
    node.else_executables = Some(vec![note(&log, "else")]);
    assert_eq!(node.execute(&mut env), Err(ExecError::NoBranchTaken));
    assert_eq!(lines(&log), vec!["c1"]);
}

#[test]
fn conditional_without_anything_takes_no_branch() {
    let mut env = VariableMapType::default();
    env.insert(key("a"), Variable::Int(1));
    let mut node = Conditional::default();
    assert_eq!(node.execute(&mut env), Err(ExecError::NoBranchTaken));
    node.conditions.push(vec![]);
    node.executables.push(note(&Log::default(), "body"));
    assert_eq!(node.execute(&mut env), Err(ExecError::NoBranchTaken));
    node.else_executables = Some(vec![]);
    assert_eq!(node.execute(&mut env), Ok(()));
    assert_eq!(env.len(), 1);
}

#[test]
fn predicates_and_instructions_see_the_environment() {
    let mut node = Conditional::default();
    node.conditions.push(vec![Predicate::new(|env: &mut VariableMapType| {
        matches!(env.get(&"MODE".to_string()), Some(v) if *v == "fast".to_string())
    })
    .into()]);
    node.executables.push(
        Instruction::new(|env: &mut VariableMapType| {
            env.insert(Rc::new("HIT".to_string()), Variable::Bool(true));
            Ok(())
        })
        .into(),
    );
    let mut env = VariableMapType::default();
    assert_eq!(node.execute(&mut env), Err(ExecError::NoBranchTaken));
    assert!(env.is_empty());
    env.insert(key("MODE"), Variable::from("fast"));
    assert_eq!(node.execute(&mut env), Ok(()));
    assert!(env[&key("HIT")] == "true".to_string());
}

#[test]
fn iteration_merges_each_mapping_before_the_body() {
    let seen = Log::default();
    let mut node = Iterative::new("ROWS".to_string());
    let log = seen.clone();
    node.push(
        Instruction::new(move |env: &mut VariableMapType| {
            match &env[&Rc::new("K".to_string())] {
                Variable::Int(k) => log.borrow_mut().push(k.to_string()),
                _ => log.borrow_mut().push("?".to_string()),
            }
            Ok(())
        })
        .into(),
    );
    let mut env = VariableMapType::default();
    env.insert(
        key("ROWS"),
        Variable::Vector(vec![mapping(&[("K", 1)]), mapping(&[("K", 2)]), mapping(&[("K", 3)])]),
    );
    assert_eq!(node.execute(&mut env), Ok(()));
    assert_eq!(lines(&seen), vec!["1", "2", "3"]);
    assert_eq!(lines(&seen)[1], "2");
    assert!(env[&key("K")] == "3".to_string());
    assert!(node.failures.is_empty());
}

#[test]
fn iteration_leaves_what_it_merged() {
    let mut node = Iterative::new("ROWS".to_string());
    let mut env = VariableMapType::default();
    env.insert(key("A"), Variable::Int(0));
    env.insert(key("B"), Variable::Int(0));
    env.insert(
        key("ROWS"),
        Variable::Vector(vec![mapping(&[("A", 1), ("C", 1)]), mapping(&[("C", 2), ("D", 2)])]),
    );
    assert_eq!(node.execute(&mut env), Ok(()));
    assert_eq!(env.len(), 5);
    assert!(env[&key("A")] == "1".to_string());
    assert!(env[&key("B")] == "0".to_string());
    assert!(env[&key("C")] == "2".to_string());
    assert!(env[&key("D")] == "2".to_string());
}

#[test]
fn iteration_goes_on_after_a_failure_in_the_body() {
    let log = Log::default();
    let mut node = Iterative::new("ROWS".to_string());
    node.push(note(&log, "a"));
    node.push(fail(&log, "b"));
    node.push(note(&log, "c"));
    let mut env = VariableMapType::default();
    env.insert(key("ROWS"), Variable::Vector(vec![mapping(&[]), mapping(&[])]));
    assert_eq!(node.execute(&mut env), Ok(()));
    assert_eq!(lines(&log), vec!["a", "b", "c", "a", "b", "c"]);
    assert_eq!(
        node.failures,
        vec![
            ExecError::Failed { reason: "b".to_string() },
            ExecError::Failed { reason: "b".to_string() }
        ]
    );
}

#[test]
fn iteration_needs_its_key() {
    let log = Log::default();
    let mut node = Iterative::new("ROWS".to_string());
    node.push(note(&log, "body"));
    let mut env = VariableMapType::default();
    assert_eq!(node.execute(&mut env), Err(ExecError::MissingKey { key: "ROWS".to_string() }));
    node.change_key("OTHER".to_string());
    assert_eq!(node.execute(&mut env), Err(ExecError::MissingKey { key: "OTHER".to_string() }));
    assert!(lines(&log).is_empty());
}

#[test]
fn iteration_needs_a_vector_of_mappings() {
    let log = Log::default();
    let mut node = Iterative::new("ROWS".to_string());
    node.push(note(&log, "body"));
    let mut env = VariableMapType::default();
    env.insert(key("ROWS"), Variable::Int(3));
    assert_eq!(
        node.execute(&mut env),
        Err(ExecError::ValueTypeMismatch { key: "ROWS".to_string(), expected: Expected::Vector })
    );
    env.insert(key("ROWS"), mapping(&[("K", 1)]));
    assert_eq!(
        node.execute(&mut env),
        Err(ExecError::ValueTypeMismatch { key: "ROWS".to_string(), expected: Expected::Vector })
    );
    assert!(lines(&log).is_empty());
    env.insert(
        key("ROWS"),
        Variable::Vector(vec![mapping(&[("K", 1)]), Variable::Int(2), mapping(&[("K", 3)])]),
    );
    assert_eq!(
        node.execute(&mut env),
        Err(ExecError::ValueTypeMismatch { key: "ROWS".to_string(), expected: Expected::Mapping })
    );
    assert_eq!(lines(&log), vec!["body"]);
    assert!(env[&key("K")] == "1".to_string());
}

#[test]
fn iteration_over_an_empty_vector_does_nothing() {
    let log = Log::default();
    let mut node = Iterative::new("ROWS".to_string());
    node.push(note(&log, "body"));
    let mut env = VariableMapType::default();
    env.insert(key("ROWS"), Variable::Vector(vec![]));
    assert_eq!(node.execute(&mut env), Ok(()));
    assert!(lines(&log).is_empty());
    assert_eq!(env.len(), 1);
}

#[test]
fn iteration_walks_the_vector_it_found() {
    let mut node = Iterative::new("ROWS".to_string());
    node.push(
        Instruction::new(|env: &mut VariableMapType| {
            env.insert(Rc::new("ROWS".to_string()), Variable::Int(0));
            Ok(())
        })
        .into(),
    );
    let mut env = VariableMapType::default();
    env.insert(key("ROWS"), Variable::Vector(vec![mapping(&[("K", 1)]), mapping(&[("K", 2)])]));
    assert_eq!(node.execute(&mut env), Ok(()));
    assert!(env[&key("K")] == "2".to_string());
    assert!(env[&key("ROWS")] == "0".to_string());
}

#[test]
fn nodes_nest() {
    let log = Log::default();
    let mut inner = Conditional::default();
    inner.conditions.push(vec![Predicate::new(|env: &mut VariableMapType| {
        matches!(env.get(&"K".to_string()), Some(v) if *v == "2".to_string())
    })
    .into()]);
    inner.executables.push(note(&log, "two"));
    inner.else_executables = Some(vec![note(&log, "other")]);
    let mut node = Iterative::new("ROWS".to_string());
    node.push(inner.into());
    let mut outer = Conditional::default();
    outer.else_executables = Some(vec![node.into()]);
    let mut env = VariableMapType::default();
    env.insert(
        key("ROWS"),
        Variable::Vector(vec![mapping(&[("K", 1)]), mapping(&[("K", 2)]), mapping(&[("K", 3)])]),
    );
    assert_eq!(outer.execute(&mut env), Ok(()));
    assert_eq!(lines(&log), vec!["other", "two", "other"]);
}

#[test]
fn body_runs_in_order_up_to_the_first_failure() {
    let log = Log::default();
    let mut body = vec![note(&log, "a"), fail(&log, "b"), note(&log, "c")];
    let mut env = VariableMapType::default();
    assert_eq!(run_body(&mut body, &mut env), Err(ExecError::Failed { reason: "b".to_string() }));
    assert_eq!(lines(&log), vec!["a", "b"]);
    assert_eq!(run_body(&mut vec![], &mut env), Ok(()));
}

#[test]
fn group_asks_every_predicate() {
    let log = Log::default();
    let mut group = vec![answer(&log, "a", true), answer(&log, "b", true), answer(&log, "c", false)];
    let mut env = VariableMapType::default();
    assert!(!ask_group(&mut group, &mut env));
    assert_eq!(lines(&log), vec!["a", "b", "c"]);
    assert!(!ask_group(&mut vec![], &mut env));
}

struct Counter {
    runs: usize,
}

impl Executable for Counter {
    fn execute(&mut self, env: &mut VariableMapType) -> Result<(), ExecError> {
        self.runs += 1;
        env.insert(Rc::new("RUNS".to_string()), Variable::Int(self.runs));
        Ok(())
    }
}

struct Flip {
    next: bool,
}

impl Condition for Flip {
    fn holds(&mut self, _env: &mut VariableMapType) -> bool {
        self.next = !self.next;
        self.next
    }
}

#[test]
fn nodes_of_other_types_keep_their_state() {
    let mut node = Conditional::default();
    node.conditions.push(vec![Box::new(Flip { next: false })]);
    node.executables.push(Box::new(Counter { runs: 0 }));
    let mut env = VariableMapType::default();
    assert_eq!(node.execute(&mut env), Ok(()));
    assert_eq!(node.execute(&mut env), Err(ExecError::NoBranchTaken));
    assert_eq!(node.execute(&mut env), Ok(()));
    assert!(env[&key("RUNS")] == "2".to_string());
}

#[test]
fn each_node_runs_whatever_fails() {
    let log = Log::default();
    let mut body = vec![fail(&log, "a"), note(&log, "b"), fail(&log, "c")];
    let mut failures = vec![ExecError::NoBranchTaken];
    let mut env = VariableMapType::default();
    run_each(&mut body, &mut failures, &mut env);
    assert_eq!(lines(&log), vec!["a", "b", "c"]);
    assert_eq!(
        failures,
        vec![
            ExecError::NoBranchTaken,
            ExecError::Failed { reason: "a".to_string() },
            ExecError::Failed { reason: "c".to_string() }
        ]
    );
    run_each(&mut vec![], &mut failures, &mut env);
    assert_eq!(failures.len(), 3);
}

#[test]
fn nested_conditional_failure_is_kept_by_the_loop() {
    let mut inner = Conditional::default();
    inner.conditions.push(vec![Predicate::new(|env: &mut VariableMapType| {
        matches!(env.get(&"K".to_string()), Some(v) if *v == "2".to_string())
    })
    .into()]);
    let mut node = Iterative::new("ROWS".to_string());
    node.push(inner.into());
    let mut env = VariableMapType::default();
    env.insert(
        key("ROWS"),
        Variable::Vector(vec![mapping(&[("K", 1)]), mapping(&[("K", 2)]), mapping(&[("K", 3)])]),
    );
    assert_eq!(node.execute(&mut env), Ok(()));
    assert_eq!(node.failures, vec![ExecError::NoBranchTaken, ExecError::NoBranchTaken]);
    assert_eq!(node.execute(&mut env), Ok(()));
    assert_eq!(node.failures.len(), 4);
}
