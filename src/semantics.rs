use vstd::prelude::*;
use crate::ast::{Arg, Node, Type, expressionNode};
use crate::value::{Value, display, spaced, repeated, type_of};

verus! {

/// A fatal runtime fault, or one of the two stops that end a run early.
#[derive(Debug, Clone, PartialEq, Eq)]
pub enum RuntimeError {
    /// A variable read that the current environment does not bind.
    UndefinedVariable(String),
    DivisionByZero,
    /// Integer arithmetic whose result does not fit the operand width.
    Overflow(char),
    /// An operator applied to operand types that do not support it.
    UnsupportedOperation(Type, Type, char),
    /// A string repeated a negative number of times.
    NegativeRepeat,
    /// A call of the named function with another number of arguments than it declares.
    ArgumentCount(String),
    /// A call of the named function whose argument does not fit its parameter type.
    ArgumentMismatch(String),
    /// A call of the named function whose result is not of its declared return type.
    WrongReturnType(String),
    /// Evaluation nested deeper than the interpreter allows.
    TooDeep,
    /// `scan()` was called and no input line is queued.
    InputNeeded,
    /// `quit()` was called.
    Quit,
}

/// A function definition as the evaluator stores it.
pub ghost struct FunSpec {
    pub params: Seq<Arg>,
    pub body: Seq<Node>,
    pub ret: Type,
}

/// The evaluator's state: the current variable bindings, the declared functions, the text
/// printed so far and the input lines not yet read.
pub ghost struct Machine {
    pub vars: Map<Seq<char>, Value>,
    pub funcs: Map<Seq<char>, FunSpec>,
    pub out: Seq<char>,
    pub input: Seq<Seq<char>>,
}

/// What a statement hands to the statements after it.
pub ghost enum Signal {
    Continue,
    Return(Value),
}

/// The zero value of a type.
pub open spec fn zero_of(t: Type) -> Value {
    match t {
        Type::Int => Value::Int(0),
        Type::Float => Value::Float,
        Type::String => Value::Str(Seq::empty()),
        Type::Bool => Value::Bool(false),
        Type::Char => Value::Char('\0'),
        Type::Long => Value::Long(0),
        Type::Short => Value::Short(0),
        Type::Void => Value::Void,
    }
}

/// Integer division rounding toward zero.
pub open spec fn div_toward_zero(a: int, b: int) -> int {
    let q: int = (if a < 0 { -a } else { a }) / (if b < 0 { -b } else { b });
    if (a < 0) != (b < 0) {
        -q
    } else {
        q
    }
}

pub open spec fn fits_i32(n: int) -> bool {
    i32::MIN <= n && n <= i32::MAX
}

/// The result of an integer operation, or the fault it raises.
pub open spec fn int_op(a: i32, b: i32, op: char) -> Result<Value, RuntimeError> {
    let x = a as int;
    let y = b as int;
    let n = if op == '+' {
        x + y
    } else if op == '-' {
        x - y
    } else if op == '*' {
        x * y
    } else {
        div_toward_zero(x, y)
    };
    if op != '+' && op != '-' && op != '*' && op != '/' {
        Err(RuntimeError::UnsupportedOperation(Type::Int, Type::Int, op))
    } else if op == '/' && y == 0 {
        Err(RuntimeError::DivisionByZero)
    } else if !fits_i32(n) {
        Err(RuntimeError::Overflow(op))
    } else {
        Ok(Value::Int(n as i32))
    }
}

/// The result of a binary operation on two evaluated operands, decided by their runtime types.
pub open spec fn binop(l: Value, r: Value, op: char) -> Result<Value, RuntimeError> {
    match (l, r) {
        (Value::Int(a), Value::Int(b)) => int_op(a, b, op),
        (Value::Str(a), Value::Str(b)) => if op == '+' {
            Ok(Value::Str(a + b))
        } else {
            Err(RuntimeError::UnsupportedOperation(Type::String, Type::String, op))
        },
        (Value::Str(a), Value::Int(n)) => if op != '*' {
            Err(RuntimeError::UnsupportedOperation(Type::String, Type::Int, op))
        } else if n < 0 {
            Err(RuntimeError::NegativeRepeat)
        } else {
            Ok(Value::Str(repeated(a, n as nat)))
        },
        _ => Err(RuntimeError::UnsupportedOperation(type_of(l), type_of(r), op)),
    }
}

/// Whether an argument fits a parameter of type `t`, judged by the argument's syntactic
/// shape and, for an operation or a variable, by its value.
pub open spec fn arg_fits(t: Type, a: expressionNode, v: Value) -> bool {
    match a {
        expressionNode::StringLiteral(_) => t == Type::String,
        expressionNode::Number(_) => t == Type::Int,
        expressionNode::BinOp(_) => (v is Int && t == Type::Int) || (v is Str && t
            == Type::String),
        expressionNode::Variable(var) => t == var.typeS && type_of(v) == t && t != Type::Void,
        _ => false,
    }
}

pub open spec fn args_fit(params: Seq<Arg>, args: Seq<expressionNode>, vals: Seq<Value>) -> bool {
    forall|i: int| 0 <= i < params.len() ==> arg_fits(params[i].arg_type, #[trigger] args[i], vals[i])
}

/// The environment of a call: each of the first `n` parameters bound to its argument.
pub open spec fn frame(params: Seq<Arg>, vals: Seq<Value>, n: nat) -> Map<Seq<char>, Value>
    decreases n,
{
    if n == 0 {
        Map::empty()
    } else {
        frame(params, vals, (n - 1) as nat).insert(params[n - 1].name@, vals[n - 1])
    }
}

pub open spec fn is_print(name: Seq<char>) -> bool {
    name == seq!['p', 'r', 'i', 'n', 't']
}

pub open spec fn is_println(name: Seq<char>) -> bool {
    name == seq!['p', 'r', 'i', 'n', 't', 'l', 'n']
}

pub open spec fn is_scan(name: Seq<char>) -> bool {
    name == seq!['s', 'c', 'a', 'n']
}

pub open spec fn is_quit(name: Seq<char>) -> bool {
    name == seq!['q', 'u', 'i', 't']
}

/// A call of a name that no user function has: one of the built-ins, or else `Void`.
/// `print` writes the display form of each argument followed by a space, `println` then
/// adds a newline, `scan` takes the next queued input line, `quit` stops the run.
pub open spec fn builtin(m: Machine, name: Seq<char>, vals: Seq<Value>) -> (Machine, Result<Value, RuntimeError>) {
    if is_print(name) {
        (Machine { out: m.out + spaced(vals), ..m }, Ok(Value::Void))
    } else if is_println(name) {
        (Machine { out: m.out + spaced(vals) + seq!['\n'], ..m }, Ok(Value::Void))
    } else if is_scan(name) {
        if m.input.len() == 0 {
            (m, Err(RuntimeError::InputNeeded))
        } else {
            (Machine { input: m.input.drop_first(), ..m }, Ok(Value::Str(m.input[0])))
        }
    } else if is_quit(name) {
        (m, Err(RuntimeError::Quit))
    } else {
        (m, Ok(Value::Void))
    }
}

/// Evaluating an expression, with at most `d` levels of nesting left.
pub open spec fn eval(m: Machine, e: expressionNode, d: nat) -> (Machine, Result<Value, RuntimeError>)
    decreases d, 0int,
{
    if d == 0 {
        (m, Err(RuntimeError::TooDeep))
    } else {
        match e {
            expressionNode::Number(n) => (m, Ok(Value::Int(n.value))),
            expressionNode::LongExpression(v) => (m, Ok(Value::Long(v))),
            expressionNode::FloatExpression => (m, Ok(Value::Float)),
            expressionNode::StringLiteral(s) => (m, Ok(Value::Str(s@))),
            expressionNode::CharLiteral(c) => (m, Ok(Value::Char(c))),
            expressionNode::Bool(b) => (m, Ok(Value::Bool(b))),
            expressionNode::DefaultValue(t) => (m, Ok(zero_of(t))),
            expressionNode::Variable(var) => if m.vars.contains_key(var.name@) {
                (m, Ok(m.vars[var.name@]))
            } else {
                (m, Err(RuntimeError::UndefinedVariable(var.name)))
            },
            expressionNode::BinOp(b) => {
                let (m1, rl) = eval(m, b.left, (d - 1) as nat);
                match rl {
                    Err(x) => (m1, Err(x)),
                    Ok(l) => {
                        let (m2, rr) = eval(m1, b.right, (d - 1) as nat);
                        match rr {
                            Err(x) => (m2, Err(x)),
                            Ok(r) => (m2, binop(l, r, b.op)),
                        }
                    },
                }
            },
            expressionNode::FunctionCall(c) => {
                let (m1, ra) = eval_args(m, c.args@, 0, Seq::empty(), (d - 1) as nat);
                match ra {
                    Err(x) => (m1, Err(x)),
                    Ok(vals) => if m1.funcs.contains_key(c.function_name@) {
                        let f = m1.funcs[c.function_name@];
                        if f.params.len() != vals.len() {
                            (m1, Err(RuntimeError::ArgumentCount(c.function_name)))
                        } else if !args_fit(f.params, c.args@, vals) {
                            (m1, Err(RuntimeError::ArgumentMismatch(c.function_name)))
                        } else {
                            let callee = Machine { vars: frame(f.params, vals, vals.len()), ..m1 };
                            let (m2, rb) = run_body(callee, f.body, 0, (d - 1) as nat);
                            let m3 = Machine { vars: m1.vars, ..m2 };
                            match rb {
                                Err(x) => (m3, Err(x)),
                                Ok(v) => if type_of(v) == f.ret {
                                    (m3, Ok(v))
                                } else {
                                    (m3, Err(RuntimeError::WrongReturnType(c.function_name)))
                                },
                            }
                        }
                    } else {
                        builtin(m1, c.function_name@, vals)
                    },
                }
            },
        }
    }
}

/// Evaluating `args[i..]` left to right after the values `acc`.
pub open spec fn eval_args(
    m: Machine,
    args: Seq<expressionNode>,
    i: int,
    acc: Seq<Value>,
    d: nat,
) -> (Machine, Result<Seq<Value>, RuntimeError>)
    decreases d, args.len() - i,
{
    if i < 0 || i >= args.len() {
        (m, Ok(acc))
    } else {
        let (m1, r) = eval(m, args[i], d);
        match r {
            Err(x) => (m1, Err(x)),
            Ok(v) => eval_args(m1, args, i + 1, acc.push(v), d),
        }
    }
}

/// Running `body[i..]` until a `return`: the returned value, or `Void` at the end.
pub open spec fn run_body(m: Machine, body: Seq<Node>, i: int, d: nat) -> (
    Machine,
    Result<Value, RuntimeError>,
)
    decreases d, body.len() - i,
{
    if i < 0 || i >= body.len() {
        (m, Ok(Value::Void))
    } else {
        let (m1, r) = exec_stmt(m, body[i], d);
        match r {
            Err(x) => (m1, Err(x)),
            Ok(Signal::Continue) => run_body(m1, body, i + 1, d),
            Ok(Signal::Return(v)) => (m1, Ok(v)),
        }
    }
}

/// Executing one statement, with at most `d` levels of nesting left.
pub open spec fn exec_stmt(m: Machine, n: Node, d: nat) -> (Machine, Result<Signal, RuntimeError>)
    decreases d, 0int,
{
    if d == 0 {
        (m, Err(RuntimeError::TooDeep))
    } else {
        match n {
            Node::Assignment(a) => {
                let (m1, r) = eval(m, a.right, (d - 1) as nat);
                match r {
                    Err(x) => (m1, Err(x)),
                    Ok(v) => (
                        Machine { vars: m1.vars.insert(a.left.name@, v), ..m1 },
                        Ok(Signal::Continue),
                    ),
                }
            },
            Node::EchoNode(e) => {
                let (m1, r) = eval(m, e.value, (d - 1) as nat);
                match r {
                    Err(x) => (m1, Err(x)),
                    Ok(v) => (
                        Machine { out: m1.out + display(v) + seq!['\n'], ..m1 },
                        Ok(Signal::Continue),
                    ),
                }
            },
            Node::ExpressionNode(e) => {
                let (m1, r) = eval(m, e, (d - 1) as nat);
                match r {
                    Err(x) => (m1, Err(x)),
                    Ok(_) => (m1, Ok(Signal::Continue)),
                }
            },
            Node::FunctionNode(f) => (
                Machine {
                    funcs: m.funcs.insert(
                        f.name@,
                        FunSpec { params: f.args@, body: f.scope.nodes@, ret: f.return_value },
                    ),
                    ..m
                },
                Ok(Signal::Continue),
            ),
            Node::ReturnNode(r) => {
                let (m1, rv) = eval(m, r.return_value, (d - 1) as nat);
                match rv {
                    Err(x) => (m1, Err(x)),
                    Ok(v) => (m1, Ok(Signal::Return(v))),
                }
            },
        }
    }
}

} // verus!
