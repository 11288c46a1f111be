use vstd::prelude::*;
use crate::ast::Type;
use crate::lexer::{chars_of, string_of};

verus! {

/// A runtime value as a mathematical object.
pub ghost enum Value {
    Int(i32),
    Float,
    Str(Seq<char>),
    Bool(bool),
    Char(char),
    Long(i128),
    Short(i8),
    Void,
}

/// A runtime value. The language has no float arithmetic and float literals evaluate to
/// zero, so the one float value is zero and carries no payload.
#[derive(Debug, Clone)]
pub enum Object {
    Int(i32),
    Float,
    String(String),
    Bool(bool),
    Char(char),
    Long(i128),
    Short(i8),
    Void,
}

impl View for Object {
    type V = Value;

    open spec fn view(&self) -> Value {
        match self {
            Object::Int(i) => Value::Int(*i),
            Object::Float => Value::Float,
            Object::String(s) => Value::Str(s@),
            Object::Bool(b) => Value::Bool(*b),
            Object::Char(c) => Value::Char(*c),
            Object::Long(l) => Value::Long(*l),
            Object::Short(s) => Value::Short(*s),
            Object::Void => Value::Void,
        }
    }
}

/// The type tag of a value.
pub open spec fn type_of(v: Value) -> Type {
    match v {
        Value::Int(_) => Type::Int,
        Value::Float => Type::Float,
        Value::Str(_) => Type::String,
        Value::Bool(_) => Type::Bool,
        Value::Char(_) => Type::Char,
        Value::Long(_) => Type::Long,
        Value::Short(_) => Type::Short,
        Value::Void => Type::Void,
    }
}

pub open spec fn digit_char(d: nat) -> char {
    if d == 0 {
        '0'
    } else if d == 1 {
        '1'
    } else if d == 2 {
        '2'
    } else if d == 3 {
        '3'
    } else if d == 4 {
        '4'
    } else if d == 5 {
        '5'
    } else if d == 6 {
        '6'
    } else if d == 7 {
        '7'
    } else if d == 8 {
        '8'
    } else {
        '9'
    }
}

/// The decimal digits of a natural number, most significant first.
pub open spec fn digits(n: nat) -> Seq<char>
    decreases n,
{
    if n < 10 {
        seq![digit_char(n)]
    } else {
        digits(n / 10).push(digit_char(n % 10))
    }
}

/// The decimal form of an integer, with a leading `-` when it is negative.
pub open spec fn decimal(n: int) -> Seq<char> {
    if n < 0 {
        seq!['-'] + digits((-n) as nat)
    } else {
        digits(n as nat)
    }
}

/// The display form of a value.
pub open spec fn display(v: Value) -> Seq<char> {
    match v {
        Value::Int(i) => decimal(i as int),
        Value::Float => seq!['0'],
        Value::Str(s) => s,
        Value::Bool(b) => if b {
            seq!['t', 'r', 'u', 'e']
        } else {
            seq!['f', 'a', 'l', 's', 'e']
        },
        Value::Char(c) => seq![c],
        Value::Long(l) => decimal(l as int),
        Value::Short(s) => decimal(s as int),
        Value::Void => seq!['v', 'o', 'i', 'd'],
    }
}

/// The display form of each value followed by one space, in order.
pub open spec fn spaced(vs: Seq<Value>) -> Seq<char>
    decreases vs.len(),
{
    if vs.len() == 0 {
        Seq::empty()
    } else {
        spaced(vs.drop_last()) + display(vs.last()) + seq![' ']
    }
}

/// `s` written `n` times in a row.
pub open spec fn repeated(s: Seq<char>, n: nat) -> Seq<char>
    decreases n,
{
    if n == 0 {
        Seq::empty()
    } else {
        repeated(s, (n - 1) as nat) + s
    }
}

fn digit_of(d: u128) -> (r: char)
    requires
        d < 10,
    ensures
        r == digit_char(d as nat),
{
    if d == 0 {
        '0'
    } else if d == 1 {
        '1'
    } else if d == 2 {
        '2'
    } else if d == 3 {
        '3'
    } else if d == 4 {
        '4'
    } else if d == 5 {
        '5'
    } else if d == 6 {
        '6'
    } else if d == 7 {
        '7'
    } else if d == 8 {
        '8'
    } else {
        '9'
    }
}

fn push_digits(n: u128, out: &mut Vec<char>)
    ensures
        final(out)@ == old(out)@ + digits(n as nat),
    decreases n,
{
    if n >= 10 {
        push_digits(n / 10, out);
    }
    out.push(digit_of(n % 10));
    proof {
        assert(final(out)@ =~= old(out)@ + digits(n as nat));
    }
}

/// Appends the decimal form of `n`.
pub(crate) fn push_decimal(n: i128, out: &mut Vec<char>)
    ensures
        final(out)@ == old(out)@ + decimal(n as int),
{
    if n < 0 {
        out.push('-');
        let m: u128 = if n == i128::MIN {
            (i128::MAX as u128) + 1
        } else {
            (-n) as u128
        };
        push_digits(m, out);
        proof {
            assert(final(out)@ =~= old(out)@ + decimal(n as int));
        }
    } else {
        push_digits(n as u128, out);
    }
}

/// Appends all characters of `s`.
pub(crate) fn push_all(out: &mut Vec<char>, s: &Vec<char>)
    ensures
        final(out)@ == old(out)@ + s@,
{
    let mut i: usize = 0;
    while i < s.len()
        invariant
            i <= s@.len(),
            out@ == old(out)@ + s@.take(i as int),
        decreases s.len() - i,
    {
        proof {
            assert(s@.take(i + 1) =~= s@.take(i as int).push(s@[i as int]));
        }
        out.push(s[i]);
        i += 1;
    }
    proof {
        assert(s@.take(i as int) =~= s@);
    }
}

impl Object {
    pub fn get_type(&self) -> (r: Type)
        ensures
            r == type_of(self@),
    {
        match self {
            Object::Int(_) => Type::Int,
            Object::Float => Type::Float,
            Object::String(_) => Type::String,
            Object::Bool(_) => Type::Bool,
            Object::Char(_) => Type::Char,
            Object::Long(_) => Type::Long,
            Object::Short(_) => Type::Short,
            Object::Void => Type::Void,
        }
    }

    pub fn as_int(&self) -> (r: Option<i32>)
        ensures
            r == (match self@ {
                Value::Int(i) => Some(i),
                _ => None,
            }),
    {
        match self {
            Object::Int(i) => Some(*i),
            _ => None,
        }
    }

    pub fn as_long(&self) -> (r: Option<i128>)
        ensures
            r == (match self@ {
                Value::Long(i) => Some(i),
                _ => None,
            }),
    {
        match self {
            Object::Long(i) => Some(*i),
            _ => None,
        }
    }

    pub fn as_string(&self) -> (r: Option<String>)
        ensures
            match self@ {
                Value::Str(s) => r is Some && r->0@ == s,
                _ => r is None,
            },
    {
        match self {
            Object::String(s) => Some(s.clone()),
            _ => None,
        }
    }

    pub fn as_char(&self) -> (r: Option<char>)
        ensures
            r == (match self@ {
                Value::Char(c) => Some(c),
                _ => None,
            }),
    {
        match self {
            Object::Char(c) => Some(*c),
            _ => None,
        }
    }

    pub fn as_short(&self) -> (r: Option<i8>)
        ensures
            r == (match self@ {
                Value::Short(i) => Some(i),
                _ => None,
            }),
    {
        match self {
            Object::Short(i) => Some(*i),
            _ => None,
        }
    }

    pub fn as_bool(&self) -> (r: Option<bool>)
        ensures
            r == (match self@ {
                Value::Bool(b) => Some(b),
                _ => None,
            }),
    {
        match self {
            Object::Bool(b) => Some(*b),
            _ => None,
        }
    }

    /// Appends the display form of the value.
    pub fn write_to(&self, out: &mut Vec<char>)
        ensures
            final(out)@ == old(out)@ + display(self@),
    {
        match self {
            Object::Int(i) => push_decimal(*i as i128, out),
            Object::Float => out.push('0'),
            Object::String(s) => {
                let cs = chars_of(s);
                push_all(out, &cs);
            },
            Object::Bool(b) => {
                if *b {
                    push_all(out, &vec!['t', 'r', 'u', 'e']);
                } else {
                    push_all(out, &vec!['f', 'a', 'l', 's', 'e']);
                }
            },
            Object::Char(c) => out.push(*c),
            Object::Long(l) => push_decimal(*l, out),
            Object::Short(s) => push_decimal(*s as i128, out),
            Object::Void => push_all(out, &vec!['v', 'o', 'i', 'd']),
        }
        proof {
            assert(final(out)@ =~= old(out)@ + display(self@));
        }
    }

    /// The display form of the value.
    pub fn to_text(&self) -> (r: String)
        ensures
            r@ == display(self@),
    {
        let mut out: Vec<char> = Vec::new();
        self.write_to(&mut out);
        proof {
            assert(out@ =~= display(self@));
        }
        string_of(&out)
    }
}

} // verus!
