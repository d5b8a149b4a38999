use std::rc::Rc;
use timetrackrs::value::{Variable, VariableMapType};
use timetrackrs::window::{describe, joined_arguments, Process, Timestamp, Window};

fn key(name: &str) -> Rc<String> {
    Rc::new(name.to_string())
}

fn process() -> Process {
    Process {
        name: "node".to_string(),
        cmd: vec!["node".to_string(), "--inspect".to_string(), "app.js".to_string()],
        exe: "/usr/bin/node".to_string(),
        cwd: "/home/u/app".to_string(),
        memory: 123456,
        status: "Sleeping".to_string(),
        start_time: Timestamp::from_millis(947638923004).unwrap(),
        cpu_usage: None,
    }
}

#[test]
fn environment_names_the_process() {
    let env = VariableMapType::from(Window { title: None, process: process() });
    assert_eq!(env.len(), 7);
    assert!(env[&key("NAME")] == "node".to_string());
    assert!(env[&key("CMD")] == "node--inspectapp.js".to_string());
    assert!(env[&key("EXE")] == "/usr/bin/node".to_string());
    assert!(env[&key("CWD")] == "/home/u/app".to_string());
    assert!(matches!(env[&key("MEMORY")], Variable::Int(123456)));
    assert!(env[&key("STATUS")] == "Sleeping".to_string());
    assert!(env[&key("START_TIME")] == "2000-01-12 01:02:03.004 UTC".to_string());
    assert!(!env.contains_key(&key("TITLE")));
    assert!(!env.contains_key(&key("CPU_USAGE")));
}

#[test]
fn title_and_cpu_usage_are_set_where_given() {
    let mut p = process();
    p.cpu_usage = Some(12.5f32.to_bits());
    let env = VariableMapType::from(Window { title: Some("README - vim".to_string()), process: p });
    assert_eq!(env.len(), 9);
    assert!(env[&key("TITLE")] == "README - vim".to_string());
    match env[&key("CPU_USAGE")] {
        Variable::Float(bits) => assert_eq!(f32::from_bits(bits), 12.5),
        _ => panic!("not a float"),
    }
    let env = VariableMapType::from(Window { title: Some(String::new()), process: process() });
    assert_eq!(env.len(), 8);
    assert!(env[&key("TITLE")] == "".to_string());
}

#[test]
fn command_line_is_joined_without_separator() {
    assert_eq!(joined_arguments(&vec![]), "");
    assert_eq!(joined_arguments(&vec!["a".to_string()]), "a");
    assert_eq!(joined_arguments(&vec!["a b".to_string(), "".to_string(), "c".to_string()]), "a bc");
}

#[test]
fn memory_is_cast_to_an_unsigned_integer() {
    let mut p = process();
    p.memory = 0;
    let env = VariableMapType::from(Window { title: None, process: p });
    assert!(matches!(env[&key("MEMORY")], Variable::Int(0)));
    let mut p = process();
    p.memory = -1;
    let env = VariableMapType::from(Window { title: None, process: p });
    assert!(matches!(env[&key("MEMORY")], Variable::Int(usize::MAX)));
}

#[test]
fn timestamp_has_the_text_of_its_date() {
    let epoch = Timestamp::from_millis(0).unwrap();
    assert_eq!(epoch.as_millis(), 0);
    assert_eq!(epoch.to_text(), "1970-01-01 00:00:00 UTC");
    let before = Timestamp::from_millis(-1).unwrap();
    assert_eq!(before.to_text(), "1969-12-31 23:59:59.999 UTC");
    let later = Timestamp::from_millis(1_600_000_000_000).unwrap();
    assert_eq!(later.as_millis(), 1_600_000_000_000);
    assert_eq!(later.to_text(), "2020-09-13 12:26:40 UTC");
}

#[test]
fn timestamp_out_of_range_is_none() {
    assert!(Timestamp::from_millis(i64::MAX).is_none());
    assert!(Timestamp::from_millis(i64::MIN).is_none());
}

#[test]
fn environment_takes_the_start_time_it_is_given() {
    let env = describe(Window { title: None, process: process() }, "then".to_string());
    assert!(env[&key("START_TIME")] == "then".to_string());
    assert!(env[&key("NAME")] == "node".to_string());
}
