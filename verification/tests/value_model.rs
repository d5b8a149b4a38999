use std::rc::Rc;
use timetrackrs::number::parse_usize;
use timetrackrs::value::{merge_into, Variable, VariableMapType};

fn text(s: &str) -> Variable {
    Variable::from(s)
}

#[test]
fn integer_equals_the_text_of_its_number() {
    assert!(Variable::Int(42) == "42".to_string());
    assert!(Variable::Int(42) == "+42".to_string());
    assert!(Variable::Int(42) == "0042".to_string());
    assert!(Variable::Int(0) == "0".to_string());
    assert!(Variable::Int(usize::MAX) == usize::MAX.to_string());
    assert!(!(Variable::Int(42) == "43".to_string()));
    assert!(!(Variable::Int(42) == "".to_string()));
    assert!(!(Variable::Int(42) == "+".to_string()));
    assert!(!(Variable::Int(42) == "-42".to_string()));
    assert!(!(Variable::Int(42) == " 42".to_string()));
    assert!(!(Variable::Int(42) == "42 ".to_string()));
    assert!(!(Variable::Int(42) == "42.0".to_string()));
    assert!(!(Variable::Int(42) == "4e1".to_string()));
    assert!(!(Variable::Int(42) == "forty-two".to_string()));
    assert!(!(Variable::Int(0) == "-0".to_string()));
    assert!(!(Variable::Int(0) == "99999999999999999999999999999999999999".to_string()));
}

#[test]
fn parse_agrees_with_std() {
    for t in ["0", "7", "+7", "007", "", "+", "-1", "++1", "1+", "18446744073709551615",
        "18446744073709551616", "184467440737095516150", "12a", "\u{0661}", " 1"] {
        assert_eq!(parse_usize(t), t.parse::<usize>().ok(), "{:?}", t);
    }
}

#[test]
fn text_equals_the_same_text_only() {
    assert!(text("abc") == "abc".to_string());
    assert!(text("") == "".to_string());
    assert!(!(text("abc") == "abd".to_string()));
    assert!(!(text("abc") == "ABC".to_string()));
    assert!(!(text("42") == "+42".to_string()));
    assert!(Variable::from("x".to_string()) == "x".to_string());
}

#[test]
fn boolean_equals_its_name_only() {
    assert!(Variable::Bool(true) == "true".to_string());
    assert!(Variable::Bool(false) == "false".to_string());
    assert!(!(Variable::Bool(true) == "false".to_string()));
    assert!(!(Variable::Bool(false) == "true".to_string()));
    assert!(!(Variable::Bool(true) == "True".to_string()));
    assert!(!(Variable::Bool(true) == "1".to_string()));
    assert!(!(Variable::Bool(false) == "".to_string()));
    assert!(!(Variable::Bool(false) == "0".to_string()));
}

#[test]
fn vector_and_mapping_equal_no_text() {
    let empty_vector = Variable::Vector(vec![]);
    let vector = Variable::from(vec![1usize, 2, 3]);
    let empty_mapping = Variable::from(VariableMapType::default());
    let mut map = VariableMapType::default();
    map.insert(Rc::new("k".to_string()), Variable::Int(1));
    let mapping = Variable::Mapping(map);
    for t in ["", "[]", "{}", "1", "true", "[1,2,3]", "k"] {
        assert!(!(empty_vector == t.to_string()));
        assert!(!(vector == t.to_string()));
        assert!(!(empty_mapping == t.to_string()));
        assert!(!(mapping == t.to_string()));
    }
}

#[test]
fn float_equals_no_text() {
    let value = Variable::Float(1.5f32.to_bits());
    assert!(!(value == "1.5".to_string()));
    assert!(!(value == "".to_string()));
    match value {
        Variable::Float(bits) => assert_eq!(f32::from_bits(bits), 1.5),
        _ => panic!("not a float"),
    }
}

#[test]
fn conversions_pick_the_variant() {
    assert!(matches!(Variable::from(7usize), Variable::Int(7)));
    assert!(matches!(Variable::from(true), Variable::Bool(true)));
    match Variable::from("s") {
        Variable::RcStr(s) => assert_eq!(*s, "s"),
        _ => panic!("not a text"),
    }
    match Variable::from(vec!["a", "b"]) {
        Variable::Vector(items) => {
            assert_eq!(items.len(), 2);
            assert!(items[0] == "a".to_string());
            assert!(items[1] == "b".to_string());
        }
        _ => panic!("not a vector"),
    }
    match Variable::from(vec![vec![true], vec![]]) {
        Variable::Vector(items) => {
            assert!(matches!(&items[0], Variable::Vector(inner) if inner.len() == 1));
            assert!(matches!(&items[1], Variable::Vector(inner) if inner.is_empty()));
        }
        _ => panic!("not a vector"),
    }
}

#[test]
fn clone_copies_every_level() {
    let mut inner = VariableMapType::default();
    inner.insert(Rc::new("n".to_string()), Variable::Int(5));
    let value = Variable::Vector(vec![Variable::Mapping(inner), text("t"), Variable::Bool(false)]);
    match value.clone() {
        Variable::Vector(items) => {
            assert_eq!(items.len(), 3);
            match &items[0] {
                Variable::Mapping(m) => {
                    assert_eq!(m.len(), 1);
                    assert!(m[&Rc::new("n".to_string())] == "5".to_string());
                }
                _ => panic!("not a mapping"),
            }
            assert!(items[1] == "t".to_string());
            assert!(items[2] == "false".to_string());
        }
        _ => panic!("not a vector"),
    }
}

#[test]
fn merge_overwrites_and_keeps() {
    let mut env = VariableMapType::default();
    env.insert(Rc::new("a".to_string()), Variable::Int(1));
    env.insert(Rc::new("b".to_string()), Variable::Int(2));
    let mut update = VariableMapType::default();
    update.insert(Rc::new("b".to_string()), Variable::Int(20));
    update.insert(Rc::new("c".to_string()), Variable::Int(30));
    merge_into(&mut env, &update);
    assert_eq!(env.len(), 3);
    assert!(env[&Rc::new("a".to_string())] == "1".to_string());
    assert!(env[&Rc::new("b".to_string())] == "20".to_string());
    assert!(env[&Rc::new("c".to_string())] == "30".to_string());
    assert_eq!(update.len(), 2);
    merge_into(&mut env, &VariableMapType::default());
    assert_eq!(env.len(), 3);
}

#[test]
fn floats_are_equal_as_floats() {
    let patterns = [
        0.0f32.to_bits(),
        (-0.0f32).to_bits(),
        1.0f32.to_bits(),
        (-1.0f32).to_bits(),
        f32::NAN.to_bits(),
        0x7fc0_0001,
        0xffc0_0000,
        0x7f80_0001,
        f32::INFINITY.to_bits(),
        f32::NEG_INFINITY.to_bits(),
        f32::MIN_POSITIVE.to_bits(),
        1,
        0x8000_0001,
        f32::MAX.to_bits(),
        u32::MAX,
    ];
    for a in patterns {
        for b in patterns {
            assert_eq!(
                Variable::Float(a) == Variable::Float(b),
                f32::from_bits(a) == f32::from_bits(b),
                "{:#x} {:#x}",
                a,
                b
            );
            assert_eq!(timetrackrs::equality::floats_equal(a, b), f32::from_bits(a) == f32::from_bits(b));
        }
    }
}

#[test]
fn values_are_equal_by_kind_and_content() {
    assert!(Variable::Int(1) == Variable::Int(1));
    assert!(Variable::Int(1) != Variable::Int(2));
    assert!(Variable::Int(1) != Variable::Bool(true));
    assert!(Variable::Int(1) != text("1"));
    assert!(text("a") == text("a"));
    assert!(text("a") != text("b"));
    assert!(Variable::Bool(false) == Variable::Bool(false));
    assert!(Variable::Bool(false) != Variable::Bool(true));
    assert!(Variable::Int(0) != Variable::Float(0));
    assert!(Variable::Vector(vec![]) == Variable::Vector(vec![]));
    assert!(Variable::Vector(vec![]) != Variable::Mapping(VariableMapType::default()));
    assert!(Variable::from(vec![1usize, 2]) == Variable::from(vec![1usize, 2]));
    assert!(Variable::from(vec![1usize, 2]) != Variable::from(vec![1usize, 3]));
    assert!(Variable::from(vec![1usize, 2]) != Variable::from(vec![1usize]));
    assert!(Variable::from(vec![1usize]) != Variable::from(vec![1usize, 2]));
    assert!(Variable::from(vec![vec!["a"]]) == Variable::from(vec![vec!["a"]]));
    assert!(Variable::from(vec![vec!["a"]]) != Variable::from(vec![vec!["b"]]));
    let nan = Variable::Vector(vec![Variable::Float(f32::NAN.to_bits())]);
    assert!(nan != nan.clone());
}

#[test]
fn mappings_are_equal_name_by_name() {
    let build = |entries: &[(&str, usize)]| {
        let mut map = VariableMapType::default();
        for (name, value) in entries {
            map.insert(Rc::new(name.to_string()), Variable::Int(*value));
        }
        Variable::Mapping(map)
    };
    assert!(build(&[]) == build(&[]));
    assert!(build(&[("a", 1), ("b", 2)]) == build(&[("b", 2), ("a", 1)]));
    assert!(build(&[("a", 1)]) != build(&[("a", 2)]));
    assert!(build(&[("a", 1)]) != build(&[("b", 1)]));
    assert!(build(&[("a", 1)]) != build(&[("a", 1), ("b", 2)]));
    let nested = |inner: Variable| {
        let mut map = VariableMapType::default();
        map.insert(Rc::new("in".to_string()), inner);
        Variable::Mapping(map)
    };
    assert!(nested(build(&[("a", 1)])) == nested(build(&[("a", 1)])));
    assert!(nested(build(&[("a", 1)])) != nested(build(&[("a", 2)])));
    assert!(nested(Variable::Float(0)) == nested(Variable::Float(0x8000_0000)));
    let value = nested(build(&[("a", 1)]));
    assert!(value == value.clone());
}
