use vstd::prelude::*;
use std::rc::Rc;
use crate::ast::{Arg, Node, Type, expressionNode, scopeNode};
use crate::lexer::{chars_of, spells};
use crate::semantics::{
    FunSpec, Machine, RuntimeError, Signal, arg_fits, args_fit, binop, builtin, eval, eval_args,
    exec_stmt, frame, int_op, run_body, zero_of,
};
use crate::table::NameTable;
use crate::value::{Object, Value, display, spaced, repeated};

verus! {

/// How deeply evaluation may nest (expressions, statements and calls together) before the
/// run stops with `TooDeep`, in place of exhausting the native stack.
pub const MAX_DEPTH: usize = 400;

/// A declared function as the evaluator keeps it; the body is shared with its declaration.
#[derive(Debug, Clone)]
#[allow(non_camel_case_types)]
pub struct function {
    pub name: String,
    pub scope: Rc<scopeNode>,
    pub args: Vec<Arg>,
    pub return_val: Type,
}

impl View for function {
    type V = FunSpec;

    open spec fn view(&self) -> FunSpec {
        FunSpec { params: self.args@, body: self.scope.nodes@, ret: self.return_val }
    }
}

impl function {
    pub fn new(name: String, scope: Rc<scopeNode>, args: Vec<Arg>, return_val: Type) -> (r: Self)
        ensures
            r.name == name,
            r.scope == scope,
            r.args == args,
            r.return_val == return_val,
    {
        Self { name, scope, args, return_val }
    }

    pub fn get_name(&self) -> (r: String)
        ensures
            r == self.name,
    {
        self.name.clone()
    }

    pub fn get_scope(&self) -> (r: &scopeNode)
        ensures
            *r == *self.scope,
    {
        &self.scope
    }

    pub fn get_args(&self) -> (r: &Vec<Arg>)
        ensures
            *r == self.args,
    {
        &self.args
    }

    pub fn get_return_value(&self) -> (r: Type)
        ensures
            r == self.return_val,
    {
        self.return_val
    }
}

/// What executing a statement hands on: go on, or leave the function with a value.
#[derive(Debug, Clone)]
pub enum State {
    Continue,
    Return(Object),
}

impl View for State {
    type V = Signal;

    open spec fn view(&self) -> Signal {
        match self {
            State::Continue => Signal::Continue,
            State::Return(o) => Signal::Return(o@),
        }
    }
}

pub open spec fn objs_view(s: Seq<Object>) -> Seq<Value> {
    s.map_values(|o: Object| o@)
}

pub open spec fn value_result(r: Result<Object, RuntimeError>) -> Result<Value, RuntimeError> {
    match r {
        Ok(o) => Ok(o@),
        Err(e) => Err(e),
    }
}

pub open spec fn signal_result(r: Result<State, RuntimeError>) -> Result<Signal, RuntimeError> {
    match r {
        Ok(s) => Ok(s@),
        Err(e) => Err(e),
    }
}

fn duplicate(o: &Object) -> (r: Object)
    ensures
        r@ == o@,
{
    match o {
        Object::Int(i) => Object::Int(*i),
        Object::Float => Object::Float,
        Object::String(s) => Object::String(s.clone()),
        Object::Bool(b) => Object::Bool(*b),
        Object::Char(c) => Object::Char(*c),
        Object::Long(l) => Object::Long(*l),
        Object::Short(s) => Object::Short(*s),
        Object::Void => Object::Void,
    }
}

fn zero_object(t: Type) -> (r: Object)
    ensures
        r@ == zero_of(t),
{
    match t {
        Type::Int => Object::Int(0),
        Type::Float => Object::Float,
        Type::String => Object::String(String::new()),
        Type::Bool => Object::Bool(false),
        Type::Char => Object::Char('\0'),
        Type::Long => Object::Long(0),
        Type::Short => Object::Short(0),
        Type::Void => Object::Void,
    }
}

/// `l` written `r` times in a row.
pub fn mul_str(l: &String, r: i32) -> (res: String)
    requires
        r >= 0,
    ensures
        res@ == repeated(l@, r as nat),
{
    let mut res = String::new();
    let mut i: i32 = 0;
    while i < r
        invariant
            0 <= i <= r,
            res@ == repeated(l@, i as nat),
        decreases r - i,
    {
        res.append(l.as_str());
        i += 1;
    }
    res
}

/// Integer arithmetic on two `i32` operands, rounding division toward zero.
pub fn int_arith(a: i32, b: i32, op: char) -> (r: Result<Object, RuntimeError>)
    ensures
        value_result(r) == int_op(a, b, op),
{
    if op != '+' && op != '-' && op != '*' && op != '/' {
        return Err(RuntimeError::UnsupportedOperation(Type::Int, Type::Int, op));
    }
    if op == '/' && b == 0 {
        return Err(RuntimeError::DivisionByZero);
    }
    let x = a as i64;
    let y = b as i64;
    let n: i64 = if op == '+' {
        x + y
    } else if op == '-' {
        x - y
    } else if op == '*' {
        proof {
            assert(-2147483648 * 2147483648 <= x * y <= 2147483648 * 2147483648) by (nonlinear_arith)
                requires
                    -2147483648 <= x <= 2147483647,
                    -2147483648 <= y <= 2147483647,
            ;
        }
        x * y
    } else {
        let ax: i64 = if x < 0 {
            -x
        } else {
            x
        };
        let ay: i64 = if y < 0 {
            -y
        } else {
            y
        };
        let q = ax / ay;
        proof {
            assert(q <= ax) by (nonlinear_arith)
                requires
                    q == ax / ay,
                    ax >= 0,
                    ay > 0,
            ;
        }
        if (x < 0) != (y < 0) {
            -q
        } else {
            q
        }
    };
    if n < i32::MIN as i64 || n > i32::MAX as i64 {
        return Err(RuntimeError::Overflow(op));
    }
    Ok(Object::Int(n as i32))
}

/// A binary operation on two evaluated operands, decided by their runtime types.
pub fn apply_binop(l: Object, r: Object, op: char) -> (res: Result<Object, RuntimeError>)
    ensures
        value_result(res) == binop(l@, r@, op),
{
    match (l, r) {
        (Object::Int(a), Object::Int(b)) => int_arith(a, b, op),
        (Object::String(a), Object::String(b)) => {
            if op == '+' {
                Ok(Object::String(a.concat(b.as_str())))
            } else {
                Err(RuntimeError::UnsupportedOperation(Type::String, Type::String, op))
            }
        },
        (Object::String(a), Object::Int(n)) => {
            if op != '*' {
                Err(RuntimeError::UnsupportedOperation(Type::String, Type::Int, op))
            } else if n < 0 {
                Err(RuntimeError::NegativeRepeat)
            } else {
                Ok(Object::String(mul_str(&a, n)))
            }
        },
        (l, r) => Err(RuntimeError::UnsupportedOperation(l.get_type(), r.get_type(), op)),
    }
}

fn fits_param(t: Type, a: &expressionNode, v: &Object) -> (r: bool)
    ensures
        r == arg_fits(t, *a, v@),
{
    match a {
        expressionNode::StringLiteral(_) => t == Type::String,
        expressionNode::Number(_) => t == Type::Int,
        expressionNode::BinOp(_) => match v {
            Object::Int(_) => t == Type::Int,
            Object::String(_) => t == Type::String,
            _ => false,
        },
        expressionNode::Variable(var) => t == var.typeS && v.get_type() == t && t != Type::Void,
        _ => false,
    }
}

fn copy_args(a: &Vec<Arg>) -> (r: Vec<Arg>)
    ensures
        r@ == a@,
{
    let mut r: Vec<Arg> = Vec::new();
    let mut i: usize = 0;
    while i < a.len()
        invariant
            i <= a@.len(),
            r@ == a@.take(i as int),
        decreases a.len() - i,
    {
        proof {
            assert(a@.take(i + 1) =~= a@.take(i as int).push(a@[i as int]));
        }
        r.push(Arg { name: a[i].name.clone(), arg_type: a[i].arg_type });
        i += 1;
    }
    proof {
        assert(a@.take(i as int) =~= a@);
    }
    r
}

/// Writes what the built-in `print` shows for its arguments: the display form of each,
/// followed by one space.
pub fn print(out: &mut Vec<char>, vals: &Vec<Object>)
    ensures
        final(out)@ == old(out)@ + spaced(objs_view(vals@)),
{
    let ghost vs = objs_view(vals@);
    let mut i: usize = 0;
    proof {
        assert(vs.take(0) =~= Seq::<Value>::empty());
        assert(old(out)@ + spaced(vs.take(0)) =~= old(out)@);
    }
    while i < vals.len()
        invariant
            i <= vals@.len(),
            vs == objs_view(vals@),
            out@ == old(out)@ + spaced(vs.take(i as int)),
        decreases vals.len() - i,
    {
        proof {
            assert(vs.take(i + 1).drop_last() =~= vs.take(i as int));
        }
        vals[i].write_to(out);
        out.push(' ');
        proof {
            assert(out@ =~= old(out)@ + spaced(vs.take(i + 1)));
        }
        i += 1;
    }
    proof {
        assert(vs.take(i as int) =~= vs);
    }
}

/// Writes what the built-in `println` shows for its arguments: as `print`, then a newline.
pub fn println(out: &mut Vec<char>, vals: &Vec<Object>)
    ensures
        final(out)@ == old(out)@ + spaced(objs_view(vals@)) + seq!['\n'],
{
    print(out, vals);
    out.push('\n');
    proof {
        assert(final(out)@ =~= old(out)@ + spaced(objs_view(vals@)) + seq!['\n']);
    }
}

/// Evaluator of statements: the variable bindings of the running function (or of the top
/// level), the declared functions, the text printed and not yet taken, and queued input.
#[derive(Clone)]
pub struct Interpritator {
    variables: NameTable<Object>,
    functions: NameTable<Rc<function>>,
    output: Vec<char>,
    input: Vec<String>,
    next_input: usize,
}

impl View for Interpritator {
    type V = Machine;

    closed spec fn view(&self) -> Machine {
        Machine {
            vars: self.variables@,
            funcs: self.functions@,
            out: self.output@,
            input: self.input@.subrange(self.next_input as int, self.input@.len() as int).map_values(
                |s: String| s@,
            ),
        }
    }
}

impl Interpritator {
    pub closed spec fn wf(&self) -> bool {
        self.next_input <= self.input@.len()
    }

    pub fn new() -> (r: Self)
        ensures
            r.wf(),
            r@ == (Machine {
                vars: Map::empty(),
                funcs: Map::empty(),
                out: Seq::empty(),
                input: Seq::empty(),
            }),
    {
        let r = Self {
            variables: NameTable::new(),
            functions: NameTable::new(),
            output: Vec::new(),
            input: Vec::new(),
            next_input: 0,
        };
        proof {
            assert(r@.input =~= Seq::<Seq<char>>::empty());
        }
        r
    }

    /// Queues a line for `scan()` to read.
    pub fn push_input(&mut self, line: String)
        requires
            old(self).wf(),
        ensures
            final(self).wf(),
            final(self)@ == (Machine { input: old(self)@.input.push(line@), ..old(self)@ }),
    {
        self.input.push(line);
        proof {
            assert(self@.input =~= old(self)@.input.push(line@));
        }
    }

    /// Hands over the text printed so far and clears it.
    pub fn take_output(&mut self) -> (r: Vec<char>)
        requires
            old(self).wf(),
        ensures
            final(self).wf(),
            r@ == old(self)@.out,
            final(self)@ == (Machine { out: Seq::empty(), ..old(self)@ }),
    {
        let mut taken: Vec<char> = Vec::new();
        std::mem::swap(&mut taken, &mut self.output);
        taken
    }

    /// The value that the current environment binds to `name`.
    pub fn get_variable(&self, name: &String) -> (r: Option<&Object>)
        ensures
            match r {
                Some(o) => self@.vars.contains_key(name@) && self@.vars[name@] == o@,
                None => !self@.vars.contains_key(name@),
            },
    {
        self.variables.get(name)
    }

    /// Executes one statement of the program.
    pub fn execute(&mut self, node: Node) -> (r: Result<State, RuntimeError>)
        requires
            old(self).wf(),
        ensures
            final(self).wf(),
            (final(self)@, signal_result(r)) == exec_stmt(old(self)@, node, MAX_DEPTH as nat),
    {
        self.execute_node(&node, MAX_DEPTH)
    }

    /// Executes one statement of the program, leaving the statement with the caller.
    pub fn run_statement(&mut self, node: &Node) -> (r: Result<State, RuntimeError>)
        requires
            old(self).wf(),
        ensures
            final(self).wf(),
            (final(self)@, signal_result(r)) == exec_stmt(old(self)@, *node, MAX_DEPTH as nat),
    {
        self.execute_node(node, MAX_DEPTH)
    }

    /// Evaluates one expression in the current environment.
    pub fn evaluate(&mut self, expr: &expressionNode) -> (r: Result<Object, RuntimeError>)
        requires
            old(self).wf(),
        ensures
            final(self).wf(),
            (final(self)@, value_result(r)) == eval(old(self)@, *expr, MAX_DEPTH as nat),
    {
        self.eval_expr(expr, MAX_DEPTH)
    }

    fn call_builtin(&mut self, name: &String, vals: Vec<Object>) -> (r: Result<Object, RuntimeError>)
        requires
            old(self).wf(),
        ensures
            final(self).wf(),
            (final(self)@, value_result(r)) == builtin(old(self)@, name@, objs_view(vals@)),
    {
        let w = chars_of(name);
        if spells(&w, &vec!['p', 'r', 'i', 'n', 't']) {
            print(&mut self.output, &vals);
            Ok(Object::Void)
        } else if spells(&w, &vec!['p', 'r', 'i', 'n', 't', 'l', 'n']) {
            println(&mut self.output, &vals);
            Ok(Object::Void)
        } else if spells(&w, &vec!['s', 'c', 'a', 'n']) {
            if self.next_input >= self.input.len() {
                return Err(RuntimeError::InputNeeded);
            }
            let line = self.input[self.next_input].clone();
            self.next_input += 1;
            proof {
                assert(self@.input =~= old(self)@.input.drop_first());
            }
            Ok(Object::String(line))
        } else if spells(&w, &vec!['q', 'u', 'i', 't']) {
            Err(RuntimeError::Quit)
        } else {
            Ok(Object::Void)
        }
    }

    /// Evaluates an expression with at most `d` levels of nesting left.
    pub fn eval_expr(&mut self, e: &expressionNode, d: usize) -> (r: Result<Object, RuntimeError>)
        requires
            old(self).wf(),
        ensures
            final(self).wf(),
            (final(self)@, value_result(r)) == eval(old(self)@, *e, d as nat),
        decreases d, 1int,
    {
        if d == 0 {
            return Err(RuntimeError::TooDeep);
        }
        let d1 = d - 1;
        match e {
            expressionNode::Number(n) => Ok(Object::Int(n.value)),
            expressionNode::LongExpression(v) => Ok(Object::Long(*v)),
            expressionNode::FloatExpression => Ok(Object::Float),
            expressionNode::StringLiteral(s) => Ok(Object::String(s.clone())),
            expressionNode::CharLiteral(c) => Ok(Object::Char(*c)),
            expressionNode::Bool(b) => Ok(Object::Bool(*b)),
            expressionNode::DefaultValue(t) => Ok(zero_object(*t)),
            expressionNode::Variable(var) => match self.variables.get(&var.name) {
                Some(o) => Ok(duplicate(o)),
                None => Err(RuntimeError::UndefinedVariable(var.name.clone())),
            },
            expressionNode::BinOp(b) => {
                let l = match self.eval_expr(&b.left, d1) {
                    Ok(l) => l,
                    Err(x) => {
                        return Err(x);
                    },
                };
                let r = match self.eval_expr(&b.right, d1) {
                    Ok(r) => r,
                    Err(x) => {
                        return Err(x);
                    },
                };
                apply_binop(l, r, b.op)
            },
            expressionNode::FunctionCall(c) => self.eval_call(c, d1),
        }
    }

    fn eval_call(&mut self, c: &crate::ast::callNode, d1: usize) -> (r: Result<Object, RuntimeError>)
        requires
            old(self).wf(),
        ensures
            final(self).wf(),
            (final(self)@, value_result(r)) == eval(
                old(self)@,
                expressionNode::FunctionCall(*c),
                (d1 + 1) as nat,
            ),
        decreases d1, 2int,
    {
        let ghost m0 = self@;
        let mut vals: Vec<Object> = Vec::new();
        let mut i: usize = 0;
        proof {
            assert(objs_view(vals@) =~= Seq::<Value>::empty());
        }
        while i < c.args.len()
            invariant
                self.wf(),
                m0 == old(self)@,
                i <= c.args@.len(),
                vals@.len() == i,
                eval_args(self@, c.args@, i as int, objs_view(vals@), d1 as nat) == eval_args(
                    m0,
                    c.args@,
                    0,
                    Seq::empty(),
                    d1 as nat,
                ),
            decreases c.args.len() - i,
        {
            match self.eval_expr(&c.args[i], d1) {
                Ok(v) => {
                    proof {
                        assert(objs_view(vals@.push(v)) =~= objs_view(vals@).push(v@));
                    }
                    vals.push(v);
                },
                Err(x) => {
                    return Err(x);
                },
            }
            i += 1;
        }
        let ghost m1 = self@;
        let ghost vs = objs_view(vals@);
        let found = match self.functions.get(&c.function_name) {
            Some(f) => Some(f.clone()),
            None => None,
        };
        let f = match found {
            Some(f) => f,
            None => {
                return self.call_builtin(&c.function_name, vals);
            },
        };
        let n = f.args.len();
        if n != vals.len() {
            return Err(RuntimeError::ArgumentCount(c.function_name.clone()));
        }
        let mut k: usize = 0;
        while k < n
            invariant
                self.wf(),
                self@ == m1,
                m0 == old(self)@,
                eval_args(m0, c.args@, 0, Seq::empty(), d1 as nat) == (m1, Ok::<Seq<Value>, RuntimeError>(vs)),
                vs == objs_view(vals@),
                m1.funcs.contains_key(c.function_name@) && m1.funcs[c.function_name@] == f@,
                n == f.args@.len(),
                n == vals@.len(),
                n == c.args@.len(),
                k <= n,
                forall|j: int|
                    0 <= j < k ==> arg_fits(f.args@[j].arg_type, #[trigger] c.args@[j], vals@[j]@),
            decreases n - k,
        {
            if !fits_param(f.args[k].arg_type, &c.args[k], &vals[k]) {
                proof {
                    assert(vs[k as int] == vals@[k as int]@);
                    assert(!arg_fits(f@.params[k as int].arg_type, c.args@[k as int], vs[k as int]));
                    assert(!args_fit(f@.params, c.args@, vs));
                }
                return Err(RuntimeError::ArgumentMismatch(c.function_name.clone()));
            }
            k += 1;
        }
        proof {
            assert(args_fit(f@.params, c.args@, vs));
        }
        let mut callee: NameTable<Object> = NameTable::new();
        k = 0;
        while k < n
            invariant
                self.wf(),
                self@ == m1,
                m0 == old(self)@,
                eval_args(m0, c.args@, 0, Seq::empty(), d1 as nat) == (m1, Ok::<Seq<Value>, RuntimeError>(vs)),
                vs == objs_view(vals@),
                n == f.args@.len(),
                n == vals@.len(),
                k <= n,
                callee@ == frame(f@.params, vs, k as nat),
            decreases n - k,
        {
            callee.insert(f.args[k].name.clone(), duplicate(&vals[k]));
            k += 1;
        }
        std::mem::swap(&mut self.variables, &mut callee);
        let ghost start = self@;
        proof {
            assert(start == Machine { vars: frame(f@.params, vs, vs.len()), ..m1 });
        }
        let body = &f.scope.nodes;
        let mut result = Object::Void;
        let mut done = false;
        let mut j: usize = 0;
        while j < body.len() && !done
            invariant
                self.wf(),
                m0 == old(self)@,
                eval_args(m0, c.args@, 0, Seq::empty(), d1 as nat) == (m1, Ok::<Seq<Value>, RuntimeError>(vs)),
                m1.funcs.contains_key(c.function_name@) && m1.funcs[c.function_name@] == f@,
                args_fit(f@.params, c.args@, vs),
                vs.len() == f@.params.len(),
                start == (Machine { vars: frame(f@.params, vs, vs.len()), ..m1 }),
                body@ == f@.body,
                j <= body@.len(),
                callee@ == m1.vars,
                !done ==> run_body(self@, body@, j as int, d1 as nat) == run_body(
                    start,
                    body@,
                    0,
                    d1 as nat,
                ) && result@ == Value::Void,
                done ==> run_body(start, body@, 0, d1 as nat) == (self@, Ok::<Value, RuntimeError>(
                    result@,
                )),
            decreases body.len() - j,
        {
            match self.execute_node(&body[j], d1) {
                Ok(State::Continue) => {},
                Ok(State::Return(v)) => {
                    result = v;
                    done = true;
                },
                Err(x) => {
                    std::mem::swap(&mut self.variables, &mut callee);
                    return Err(x);
                },
            }
            j += 1;
        }
        std::mem::swap(&mut self.variables, &mut callee);
        if result.get_type() == f.return_val {
            Ok(result)
        } else {
            Err(RuntimeError::WrongReturnType(c.function_name.clone()))
        }
    }

    fn execute_node(&mut self, n: &Node, d: usize) -> (r: Result<State, RuntimeError>)
        requires
            old(self).wf(),
        ensures
            final(self).wf(),
            (final(self)@, signal_result(r)) == exec_stmt(old(self)@, *n, d as nat),
        decreases d, 1int,
    {
        if d == 0 {
            return Err(RuntimeError::TooDeep);
        }
        let d1 = d - 1;
        match n {
            Node::Assignment(a) => match self.eval_expr(&a.right, d1) {
                Ok(v) => {
                    self.variables.insert(a.left.name.clone(), v);
                    Ok(State::Continue)
                },
                Err(x) => Err(x),
            },
            Node::EchoNode(e) => match self.eval_expr(&e.value, d1) {
                Ok(v) => {
                    let ghost mid = self@;
                    v.write_to(&mut self.output);
                    self.output.push('\n');
                    proof {
                        assert(self.output@ =~= mid.out + display(v@) + seq!['\n']);
                    }
                    Ok(State::Continue)
                },
                Err(x) => Err(x),
            },
            Node::ExpressionNode(e) => match self.eval_expr(e, d1) {
                Ok(_) => Ok(State::Continue),
                Err(x) => Err(x),
            },
            Node::FunctionNode(f) => {
                let def = function {
                    name: f.name.clone(),
                    scope: f.scope.clone(),
                    args: copy_args(&f.args),
                    return_val: f.return_value,
                };
                proof {
                    assert(def@ == FunSpec { params: f.args@, body: f.scope.nodes@, ret: f.return_value });
                }
                self.functions.insert(f.name.clone(), Rc::new(def));
                Ok(State::Continue)
            },
            Node::ReturnNode(r) => match self.eval_expr(&r.return_value, d1) {
                Ok(v) => Ok(State::Return(v)),
                Err(x) => Err(x),
            },
        }
    }
}

} // verus!
