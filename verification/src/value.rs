//! Scalar field values of map documents. Composite JSON values reach the
//! gateway as their serialized text, so a field value is a null, a boolean,
//! an integer or a string.

use vstd::prelude::*;
use vstd::string::StrSliceExecFns;
use vstd::string::StringExecFns;

verus! {

/// One field value of a map document.
#[derive(Debug)]
pub enum Value {
    Null,
    Bool(bool),
    Int(i64),
    Str(String),
}

/// The mathematical value of a field value.
pub enum ValueV {
    Null,
    Bool(bool),
    Int(int),
    Str(Seq<char>),
}

impl View for Value {
    type V = ValueV;

    open spec fn view(&self) -> ValueV {
        match self {
            Value::Null => ValueV::Null,
            Value::Bool(b) => ValueV::Bool(*b),
            Value::Int(n) => ValueV::Int(*n as int),
            Value::Str(s) => ValueV::Str(s@),
        }
    }
}

/// Copy a field value.
pub fn value_clone(v: &Value) -> (r: Value)
    ensures
        r@ == v@,
{
    match v {
        Value::Null => Value::Null,
        Value::Bool(b) => Value::Bool(*b),
        Value::Int(n) => Value::Int(*n),
        Value::Str(s) => Value::Str(s.clone()),
    }
}

/// Whether two field values are equal.
pub fn value_eq(a: &Value, b: &Value) -> (r: bool)
    ensures
        r == (a@ == b@),
{
    match (a, b) {
        (Value::Null, Value::Null) => true,
        (Value::Bool(x), Value::Bool(y)) => x == y,
        (Value::Int(x), Value::Int(y)) => x == y,
        (Value::Str(x), Value::Str(y)) => {
            let e: bool = String::eq(x, y);
            proof {
                assert(e == (x@ == y@));
            }
            e
        },
        _ => false,
    }
}

/// Lexicographic order on character sequences, by code point.
pub open spec fn chars_lt(a: Seq<char>, b: Seq<char>) -> bool
    decreases a.len(),
{
    if b.len() == 0 {
        false
    } else if a.len() == 0 {
        true
    } else if a.first() != b.first() {
        (a.first() as u32) < (b.first() as u32)
    } else {
        chars_lt(a.drop_first(), b.drop_first())
    }
}

/// Lexicographic comparison of two strings.
pub fn str_lt(a: &str, b: &str) -> (r: bool)
    ensures
        r == chars_lt(a@, b@),
{
    let an = a.unicode_len();
    let bn = b.unicode_len();
    let mut i: usize = 0;
    proof {
        assert(a@.skip(0) =~= a@);
        assert(b@.skip(0) =~= b@);
    }
    while i < an && i < bn
        invariant
            0 <= i <= an,
            0 <= i <= bn,
            an == a@.len(),
            bn == b@.len(),
            chars_lt(a@, b@) == chars_lt(a@.skip(i as int), b@.skip(i as int)),
        decreases an - i,
    {
        let ca = a.get_char(i);
        let cb = b.get_char(i);
        proof {
            assert(a@.skip(i as int).first() == a@[i as int]);
            assert(b@.skip(i as int).first() == b@[i as int]);
        }
        if ca != cb {
            return (ca as u32) < (cb as u32);
        }
        proof {
            assert(a@.skip(i as int).drop_first() =~= a@.skip(i + 1));
            assert(b@.skip(i as int).drop_first() =~= b@.skip(i + 1));
        }
        i = i + 1;
    }
    proof {
        assert(a@.skip(i as int).len() == an - i);
        assert(b@.skip(i as int).len() == bn - i);
    }
    i < bn
}

/// The order rank of a value: nulls, then booleans, then integers, then
/// strings, as the model's total order over mixed types.
pub open spec fn rank(v: ValueV) -> int {
    match v {
        ValueV::Null => 0,
        ValueV::Bool(_) => 1,
        ValueV::Int(_) => 2,
        ValueV::Str(_) => 3,
    }
}

/// The model's total order on field values: by rank, then by value.
pub open spec fn value_lt(a: ValueV, b: ValueV) -> bool {
    if rank(a) != rank(b) {
        rank(a) < rank(b)
    } else {
        match (a, b) {
            (ValueV::Bool(x), ValueV::Bool(y)) => !x && y,
            (ValueV::Int(x), ValueV::Int(y)) => x < y,
            (ValueV::Str(x), ValueV::Str(y)) => chars_lt(x, y),
            _ => false,
        }
    }
}

/// Compare two field values in the model's order.
pub fn value_lt_exec(a: &Value, b: &Value) -> (r: bool)
    ensures
        r == value_lt(a@, b@),
{
    match (a, b) {
        (Value::Null, _) => !matches!(b, Value::Null),
        (Value::Bool(_), Value::Null) => false,
        (Value::Bool(x), Value::Bool(y)) => !*x && *y,
        (Value::Bool(_), _) => true,
        (Value::Int(_), Value::Null) => false,
        (Value::Int(_), Value::Bool(_)) => false,
        (Value::Int(x), Value::Int(y)) => x < y,
        (Value::Int(_), Value::Str(_)) => true,
        (Value::Str(x), Value::Str(y)) => str_lt(x.as_str(), y.as_str()),
        (Value::Str(_), _) => false,
    }
}

} // verus!
