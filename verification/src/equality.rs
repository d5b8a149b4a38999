//! Equality of two values, and of a value and a text. The latter is not
//! symmetric, and it holds for integers, texts and booleans only.

use vstd::prelude::*;
use vstd::std_specs::cmp::PartialEqSpecImpl;
use crate::number::{decimal_digits, law_digits_read_back, parse_unsigned, parse_usize};
use crate::text::same_text;
use crate::value::{float_equal, same_environment, same_value, Value, Variable};

verus! {

/// Whether `value` equals `text`: an integer, where the text is that number;
/// a text, where the two are the same; a boolean, where the text is its name,
/// `true` or `false`. A float, a vector or a mapping equals no text.
pub open spec fn text_equal(value: Value, text: Seq<char>) -> bool {
    match value {
        Value::Int(number) => parse_unsigned(text) == Some(number),
        Value::Text(own) => own == text,
        Value::Bool(boolean) => (boolean && text == "true"@) || (!boolean && text == "false"@),
        Value::Float(_) => false,
        Value::Vector(_) => false,
        Value::Mapping(_) => false,
    }
}

/// Whether two bit patterns are equal as floats.
pub fn floats_equal(a: u32, b: u32) -> (equal: bool)
    ensures
        equal == float_equal(a, b),
{
    let a_is_nan = a & 0x7f80_0000 == 0x7f80_0000 && a & 0x007f_ffff != 0;
    let b_is_nan = b & 0x7f80_0000 == 0x7f80_0000 && b & 0x007f_ffff != 0;
    !a_is_nan && !b_is_nan && (a == b || (a & 0x7fff_ffff == 0 && b & 0x7fff_ffff == 0))
}

impl PartialEq for Variable {
    fn eq(&self, other: &Variable) -> (equal: bool)
        decreases *self,
    {
        match (self, other) {
            (Variable::Int(x), Variable::Int(y)) => *x == *y,
            (Variable::Float(x), Variable::Float(y)) => floats_equal(*x, *y),
            (Variable::RcStr(x), Variable::RcStr(y)) => same_text(x.as_str(), y.as_str()),
            (Variable::Bool(x), Variable::Bool(y)) => *x == *y,
            (Variable::Vector(x), Variable::Vector(y)) => {
                if x.len() != y.len() {
                    return false;
                }
                let mut i: usize = 0;
                while i < x.len()
                    invariant
                        i <= x.len() == y.len(),
                        self is Vector,
                        self->Vector_0 == *x,
                        other is Vector,
                        other->Vector_0 == *y,
                        forall|k: int| 0 <= k < i ==> same_value(#[trigger] x[k]@, y[k]@),
                    decreases x.len() - i,
                {
                    proof {
                        vstd::std_specs::vec::axiom_vec_index_decreases(*x, i as int);
                    }
                    if !x[i].eq(&y[i]) {
                        assert(self@->Vector_0[i as int] == x[i as int]@);
                        return false;
                    }
                    i += 1;
                }
                assert forall|k: int| 0 <= k < self@->Vector_0.len() implies same_value(
                    #[trigger] self@->Vector_0[k],
                    other@->Vector_0[k],
                ) by {
                    assert(same_value(x[k]@, y[k]@));
                }
                true
            },
            (Variable::Mapping(x), Variable::Mapping(y)) => same_environment(x, y),
            _ => false,
        }
    }
}

impl PartialEqSpecImpl for Variable {
    open spec fn obeys_eq_spec() -> bool {
        true
    }

    open spec fn eq_spec(&self, other: &Variable) -> bool {
        same_value(self@, other@)
    }
}

impl PartialEq<String> for Variable {
    fn eq(&self, other: &String) -> (equal: bool) {
        match self {
            Variable::Int(number) => match parse_usize(other.as_str()) {
                Some(parsed) => *number == parsed,
                None => false,
            },
            Variable::RcStr(text) => same_text(text.as_str(), other.as_str()),
            Variable::Bool(boolean) => {
                if *boolean {
                    same_text(other.as_str(), "true")
                } else {
                    same_text(other.as_str(), "false")
                }
            },
            _ => false,
        }
    }
}

impl PartialEqSpecImpl<String> for Variable {
    open spec fn obeys_eq_spec() -> bool {
        true
    }

    open spec fn eq_spec(&self, other: &String) -> bool {
        text_equal(self@, other@)
    }
}

/// An integer equals a text exactly where the text reads as an unsigned
/// integer of the same magnitude.
pub proof fn law_integer_equals_its_number(number: nat, text: Seq<char>)
    ensures
        text_equal(Value::Int(number), text) <==> parse_unsigned(text) == Some(number),
{
}

/// An integer equals the text of its digits.
pub proof fn law_integer_equals_its_digits(number: nat)
    ensures
        text_equal(Value::Int(number), decimal_digits(number)),
{
    law_digits_read_back(number);
}

/// A boolean equals the text `true` where it is true, the text `false` where
/// it is false, and no other text.
pub proof fn law_boolean_equals_its_name(boolean: bool, text: Seq<char>)
    ensures
        text_equal(Value::Bool(boolean), text) <==> ((boolean && text == "true"@) || (!boolean
            && text == "false"@)),
{
}

/// A vector or a mapping, empty or not, equals no text.
pub proof fn law_collections_equal_no_text(value: Value, text: Seq<char>)
    requires
        value is Vector || value is Mapping,
    ensures
        !text_equal(value, text),
{
}

} // verus!
