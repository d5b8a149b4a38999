//! The values that rules work on, and the environment that holds them.

use vstd::prelude::*;
use vstd::std_specs::convert::{FromSpecImpl, IntoSpec};
use vstd::string::StringExecFns;
use rustc_hash::FxBuildHasher;
use std::collections::HashMap;
use std::rc::Rc;

verus! {

/// `rustc_hash::FxBuildHasher`, the hasher of an environment. Nothing is
/// stated of it.
#[verifier::external_type_specification]
#[verifier::external_body]
pub struct ExFxBuildHasher(FxBuildHasher);

/// An environment: a mapping of names to values, an `FxHashMap`.
pub type VariableMapType = HashMap<Rc<String>, Variable, FxBuildHasher>;

/// A value.
#[derive(Debug)]
pub enum Variable {
    /// An unsigned integer.
    Int(usize),
    /// A 32-bit float, held as its IEEE 754 bit pattern.
    Float(u32),
    /// A text, which may be shared.
    RcStr(Rc<String>),
    /// A boolean.
    Bool(bool),
    /// A sequence of values of any kinds.
    Vector(Vec<Variable>),
    /// Values under names, each name once.
    Mapping(VariableMapType),
}

/// What an environment holds: a mathematical value under each name.
pub type Contents = Map<Seq<char>, Value>;

/// What an environment holds: the value under each name.
pub uninterp spec fn env_contents(env: VariableMapType) -> Contents;

/// The environment that holds nothing.
pub open spec fn no_variables() -> Contents {
    Map::empty()
}

/// `Rc::clone`: another pointer to the same text.
#[verifier::external_body]
fn share(text: &Rc<String>) -> (copy: Rc<String>)
    ensures
        copy@ == text@,
{
    text.clone()
}

/// `HashMap::clone` on an environment: a map that holds what `env` holds.
#[verifier::external_body]
fn clone_environment(env: &VariableMapType) -> (copy: VariableMapType)
    ensures
        env_contents(copy) == env_contents(*env),
{
    env.clone()
}

/// `HashMap::eq` on two environments: they hold the same names, and under
/// each name values that are equal as `Variable::eq` has it.
#[verifier::external_body]
pub(crate) fn same_environment(a: &VariableMapType, b: &VariableMapType) -> (same: bool)
    ensures
        same == same_contents(env_contents(*a), env_contents(*b)),
{
    a == b
}

/// `HashMap::default` with the Fx hasher: an environment that holds nothing.
#[verifier::external_body]
pub(crate) fn empty_environment() -> (env: VariableMapType)
    ensures
        env_contents(env) == no_variables(),
{
    VariableMapType::default()
}

/// `HashMap::insert` on an environment: afterwards `key` names `value`, and
/// every other name what it named before.
#[verifier::external_body]
pub(crate) fn insert_variable(env: &mut VariableMapType, key: Rc<String>, value: Variable)
    ensures
        env_contents(*final(env)) == env_contents(*old(env)).insert(key@, value@),
{
    env.insert(key, value);
}

/// `HashMap::get` on an environment: the value that `key` names, if any.
#[verifier::external_body]
pub(crate) fn lookup<'a>(env: &'a VariableMapType, key: &String) -> (found: Option<&'a Variable>)
    ensures
        match found {
            Some(value) => env_contents(*env).contains_key(key@) && value@ == env_contents(
                *env,
            )[key@],
            None => !env_contents(*env).contains_key(key@),
        },
{
    env.get(key)
}

/// `HashMap::iter` on an environment, each entry cloned into a pair: every
/// name of the environment once, with its value, in no stated order.
#[verifier::external_body]
fn entries(env: &VariableMapType) -> (pairs: Vec<(Rc<String>, Variable)>)
    ensures
        lists(pairs@, env_contents(*env)),
{
    env.iter().map(|(key, value)| (key.clone(), value.clone())).collect()
}

/// `pairs` holds each name of `contents` exactly once, with its value, and
/// nothing else.
spec fn lists(pairs: Seq<(Rc<String>, Variable)>, contents: Contents) -> bool {
    &&& forall|i: int|
        0 <= i < pairs.len() ==> contents.contains_key((#[trigger] pairs[i]).0@) && contents[pairs[i].0@]
            == pairs[i].1@
    &&& forall|i: int, j: int|
        0 <= i < j < pairs.len() ==> (#[trigger] pairs[i]).0@ != (#[trigger] pairs[j]).0@
    &&& forall|name: Seq<char>| #[trigger]
        contents.contains_key(name) ==> exists|i: int|
            0 <= i < pairs.len() && (#[trigger] pairs[i]).0@ == name
}

/// The mathematical value of a `Variable`.
pub enum Value {
    Int(nat),
    Float(u32),
    Text(Seq<char>),
    Bool(bool),
    Vector(Seq<Value>),
    Mapping(Contents),
}

/// A bit pattern that is no number.
pub open spec fn is_nan(bits: u32) -> bool {
    bits & 0x7f80_0000 == 0x7f80_0000 && bits & 0x007f_ffff != 0
}

/// A bit pattern of zero, positive or negative.
pub open spec fn is_zero(bits: u32) -> bool {
    bits & 0x7fff_ffff == 0
}

/// Whether two bit patterns are equal as floats: neither is NaN, and they
/// are the same pattern or both zero.
pub open spec fn float_equal(a: u32, b: u32) -> bool {
    !is_nan(a) && !is_nan(b) && (a == b || (is_zero(a) && is_zero(b)))
}

/// Whether two values are equal: of the same kind, and equal as integers,
/// floats, texts or booleans, item by item as vectors, name by name as
/// mappings.
pub open spec fn same_value(a: Value, b: Value) -> bool
    decreases a,
{
    match (a, b) {
        (Value::Int(x), Value::Int(y)) => x == y,
        (Value::Float(x), Value::Float(y)) => float_equal(x, y),
        (Value::Text(x), Value::Text(y)) => x == y,
        (Value::Bool(x), Value::Bool(y)) => x == y,
        (Value::Vector(x), Value::Vector(y)) => x.len() == y.len() && forall|i: int|
            0 <= i < x.len() ==> same_value(#[trigger] x[i], y[i]),
        (Value::Mapping(x), Value::Mapping(y)) => x.dom() == y.dom() && forall|name: Seq<char>|
            x.contains_key(name) ==> {
                proof {
                    vstd::map::axiom_map_index_decreases_infinite(x, name);
                }
                same_value(#[trigger] x[name], y[name])
            },
        _ => false,
    }
}

/// Whether two environments hold the same names, with equal values.
pub open spec fn same_contents(a: Contents, b: Contents) -> bool {
    same_value(Value::Mapping(a), Value::Mapping(b))
}

impl Variable {
    /// The mathematical value of this variable.
    pub open spec fn value(self) -> Value
        decreases self,
    {
        match self {
            Variable::Int(number) => Value::Int(number as nat),
            Variable::Float(bits) => Value::Float(bits),
            Variable::RcStr(text) => Value::Text(text@),
            Variable::Bool(boolean) => Value::Bool(boolean),
            Variable::Vector(items) => Value::Vector(
                Seq::new(
                    items.len() as nat,
                    |i: int|
                        if 0 <= i < items.len() {
                            items[i].value()
                        } else {
                            Value::Bool(false)
                        },
                ),
            ),
            Variable::Mapping(map) => Value::Mapping(env_contents(map)),
        }
    }
}

impl View for Variable {
    type V = Value;

    open spec fn view(&self) -> Value {
        self.value()
    }
}

impl Clone for Variable {
    fn clone(&self) -> (copy: Self)
        ensures
            copy@ == self@,
        decreases *self,
    {
        match self {
            Variable::Int(number) => Variable::Int(*number),
            Variable::Float(bits) => Variable::Float(*bits),
            Variable::RcStr(text) => Variable::RcStr(share(text)),
            Variable::Bool(boolean) => Variable::Bool(*boolean),
            Variable::Vector(items) => {
                let mut copies: Vec<Variable> = Vec::new();
                let mut i: usize = 0;
                while i < items.len()
                    invariant
                        i <= items.len(),
                        copies.len() == i,
                        forall|k: int| 0 <= k < i ==> (#[trigger] copies[k])@ == items[k]@,
                        self is Vector,
                        self->Vector_0 == *items,
                    decreases items.len() - i,
                {
                    proof {
                        vstd::std_specs::vec::axiom_vec_index_decreases(*items, i as int);
                    }
                    copies.push(items[i].clone());
                    i += 1;
                }
                let copy = Variable::Vector(copies);
                assert(copy@->Vector_0 =~= self@->Vector_0);
                copy
            },
            Variable::Mapping(map) => Variable::Mapping(clone_environment(map)),
        }
    }
}

impl From<usize> for Variable {
    fn from(number: usize) -> (value: Self) {
        Variable::Int(number)
    }
}

impl FromSpecImpl<usize> for Variable {
    open spec fn obeys_from_spec() -> bool {
        true
    }

    open spec fn from_spec(number: usize) -> Self {
        Variable::Int(number)
    }
}

impl From<bool> for Variable {
    fn from(boolean: bool) -> (value: Self) {
        Variable::Bool(boolean)
    }
}

impl FromSpecImpl<bool> for Variable {
    open spec fn obeys_from_spec() -> bool {
        true
    }

    open spec fn from_spec(boolean: bool) -> Self {
        Variable::Bool(boolean)
    }
}

impl From<String> for Variable {
    fn from(string: String) -> (value: Self) {
        Variable::RcStr(Rc::new(string))
    }
}

impl FromSpecImpl<String> for Variable {
    open spec fn obeys_from_spec() -> bool {
        true
    }

    open spec fn from_spec(string: String) -> Self {
        Variable::RcStr(Rc::new(string))
    }
}

impl From<&str> for Variable {
    fn from(string: &str) -> (value: Self)
        ensures
            value@ == Value::Text(string@),
    {
        Variable::RcStr(Rc::new(String::from_str(string)))
    }
}

impl FromSpecImpl<&str> for Variable {
    open spec fn obeys_from_spec() -> bool {
        false
    }

    open spec fn from_spec(string: &str) -> Self {
        arbitrary()
    }
}

impl From<VariableMapType> for Variable {
    fn from(variables_map: VariableMapType) -> (value: Self) {
        Variable::Mapping(variables_map)
    }
}

impl FromSpecImpl<VariableMapType> for Variable {
    open spec fn obeys_from_spec() -> bool {
        true
    }

    open spec fn from_spec(variables_map: VariableMapType) -> Self {
        Variable::Mapping(variables_map)
    }
}

impl<V: Into<Variable>> From<Vec<V>> for Variable {
    fn from(vec: Vec<V>) -> (value: Self)
        ensures
            value is Vector,
            value->Vector_0.len() == vec.len(),
            V::obeys_into_spec() ==> forall|i: int|
                0 <= i < vec.len() ==> (#[trigger] value->Vector_0[i]) == vec[i].into_spec(),
    {
        let mut items: Vec<Variable> = Vec::new();
        for item in it: vec
            invariant
                items.len() == it.index(),
                it.seq() == vec@,
                V::obeys_into_spec() ==> forall|i: int|
                    0 <= i < items.len() ==> (#[trigger] items[i]) == vec[i].into_spec(),
        {
            items.push(item.into());
        }
        Variable::Vector(items)
    }
}

impl<V: Into<Variable>> FromSpecImpl<Vec<V>> for Variable {
    open spec fn obeys_from_spec() -> bool {
        false
    }

    open spec fn from_spec(vec: Vec<V>) -> Self {
        arbitrary()
    }
}

/// The contents after the first `n` of `pairs` were inserted, one after the
/// other, into `contents`.
spec fn inserted(
    contents: Contents,
    pairs: Seq<(Rc<String>, Variable)>,
    n: int,
) -> Contents
    decreases n,
{
    if n <= 0 {
        contents
    } else {
        inserted(contents, pairs, n - 1).insert(pairs[n - 1].0@, pairs[n - 1].1@)
    }
}

/// One of the first `n` of `pairs` has the name `name`.
spec fn named_in(pairs: Seq<(Rc<String>, Variable)>, n: int, name: Seq<char>) -> bool {
    exists|i: int| 0 <= i < n && (#[trigger] pairs[i]).0@ == name
}

/// What `name` names after the first `n` pairs of a list of `update` were
/// inserted: its value of `update` where one of them has that name, else
/// what it named before.
proof fn lemma_inserted(
    contents: Contents,
    update: Contents,
    pairs: Seq<(Rc<String>, Variable)>,
    n: int,
    name: Seq<char>,
)
    requires
        lists(pairs, update),
        0 <= n <= pairs.len(),
    ensures
        inserted(contents, pairs, n).contains_key(name) <==> contents.contains_key(name)
            || named_in(pairs, n, name),
        named_in(pairs, n, name) ==> inserted(contents, pairs, n)[name] == update[name],
        !named_in(pairs, n, name) && contents.contains_key(name) ==> inserted(contents, pairs, n)[name]
            == contents[name],
    decreases n,
{
    if n > 0 {
        lemma_inserted(contents, update, pairs, n - 1, name);
    }
}

/// Merges `update` into `env`: afterwards every name of `update` has its
/// value of `update`, and every other name the value it had.
pub fn merge_into(env: &mut VariableMapType, update: &VariableMapType)
    ensures
        env_contents(*final(env)) == env_contents(*old(env)).union_prefer_right(
            env_contents(*update),
        ),
{
    let pairs = entries(update);
    let ghost before = env_contents(*env);
    for pair in it: pairs
        invariant
            it.seq() == pairs@,
            env_contents(*env) == inserted(before, pairs@, it.index() as int),
    {
        insert_variable(env, pair.0, pair.1);
    }
    proof {
        let update = env_contents(*update);
        let n = pairs.len() as int;
        assert forall|name: Seq<char>|
            #![trigger update.contains_key(name)]
            #![trigger before.contains_key(name)]
            {
                &&& inserted(before, pairs@, n).contains_key(name) <==> before.contains_key(name)
                    || update.contains_key(name)
                &&& update.contains_key(name) ==> inserted(before, pairs@, n)[name] == update[name]
                &&& !update.contains_key(name) && before.contains_key(name) ==> inserted(
                    before,
                    pairs@,
                    n,
                )[name] == before[name]
            } by {
            lemma_inserted(before, update, pairs@, n, name);
            if named_in(pairs@, n, name) {
                let i = choose|i: int| 0 <= i < n && (#[trigger] pairs@[i]).0@ == name;
            }
        }
    }
}

} // verus!
