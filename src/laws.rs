use vstd::prelude::*;
use crate::ast::{Arg, ExprV, NodeV, Type, binOpNode, expressionNode, variableNode};
use crate::parser::{
    NARROW_LIMIT, PState, ParseError, all_digits, checked, decimal_value, decl_type, declaration,
    digit_value, expr, factor, is_kind, kind_at, literal_expr, reassignment,
};
use crate::semantics::{
    Machine, RuntimeError, binop, eval, eval_args, frame, is_print, is_println,
    is_quit, is_scan,
};
use crate::token::{TokenType, TokV};
use crate::value::{Value, digit_char, digits};

verus! {

proof fn lemma_digit_char(d: nat)
    requires
        d < 10,
    ensures
        digit_value(digit_char(d)) == d,
        '0' <= digit_char(d) <= '9',
{
}

/// The decimal digits of `n` are digits, and read back as `n`.
pub proof fn lemma_digits_value(n: nat)
    ensures
        digits(n).len() > 0,
        all_digits(digits(n)),
        decimal_value(digits(n)) == n,
    decreases n,
{
    if n < 10 {
        lemma_digit_char(n);
        assert(digits(n).drop_last() =~= Seq::<char>::empty());
        assert(decimal_value(Seq::<char>::empty()) == 0);
        assert(decimal_value(digits(n)) == decimal_value(digits(n).drop_last()) * 10 + digit_value(digits(n).last()));
    } else {
        lemma_digits_value(n / 10);
        lemma_digit_char(n % 10);
        assert(digits(n).drop_last() =~= digits(n / 10));
        vstd::arithmetic::div_mod::lemma_fundamental_div_mod(n as int, 10);
        assert(decimal_value(digits(n)) == decimal_value(digits(n / 10)) * 10 + digit_value(
            digit_char(n % 10),
        ));
        assert(decimal_value(digits(n / 10)) == n / 10);
        assert(digit_value(digit_char(n % 10)) == n % 10);
        assert forall|i: int| 0 <= i < digits(n).len() implies crate::lexer::is_digit(
            #[trigger] digits(n)[i],
        ) by {
            if i < digits(n / 10).len() {
                assert(digits(n)[i] == digits(n / 10)[i]);
            }
        }
    }
}

/// An integer literal token holding the decimal digits of `n` parses, wherever it stands,
/// to the narrow integer when `n` is at most 3600 and to the wide integer above that, and the
/// cursor moves past it.
pub proof fn law_literal_width(toks: Seq<TokV>, p: int, n: nat, ty: Map<Seq<char>, Type>)
    requires
        0 <= p < toks.len(),
        toks[p] == (TokenType::IntLiteral, digits(n)),
        n <= i128::MAX,
    ensures
        n <= NARROW_LIMIT ==> factor(toks, p, ty) == Ok::<(ExprV, int), ParseError>(
            (ExprV::Number(n as i32), p + 1),
        ),
        n > NARROW_LIMIT ==> factor(toks, p, ty) == Ok::<(ExprV, int), ParseError>(
            (ExprV::Long(n as i128), p + 1),
        ),
{
    lemma_digits_value(n);
    assert(literal_expr(digits(n)) is Some);
}

/// A lone integer literal parses, as an expression, to the narrow integer up to 3600 and to
/// the wide integer above it.
pub proof fn law_lone_literal_width(n: nat, ty: Map<Seq<char>, Type>)
    requires
        n <= i128::MAX,
    ensures
        n <= NARROW_LIMIT ==> expr(seq![(TokenType::IntLiteral, digits(n))], 0, ty) == Ok::<
            (ExprV, int),
            ParseError,
        >((ExprV::Number(n as i32), 1)),
        n > NARROW_LIMIT ==> expr(seq![(TokenType::IntLiteral, digits(n))], 0, ty) == Ok::<
            (ExprV, int),
            ParseError,
        >((ExprV::Long(n as i128), 1)),
{
    let toks: Seq<TokV> = seq![(TokenType::IntLiteral, digits(n))];
    law_literal_width(toks, 0, n, ty);
}

/// A declaration records its type for its name, replacing any type recorded before (there is
/// no already-declared fault), and assigns the value given, or else the type's default. One
/// without a value always succeeds.
pub proof fn law_declaration_records_type(toks: Seq<TokV>, st: PState)
    requires
        0 <= st.pos,
        is_kind(toks, st.pos, TokenType::ID),
        is_kind(toks, st.pos + 1, TokenType::Colon),
        decl_type(kind_at(toks, st.pos + 2)) is Some,
    ensures
        ({
            let name = toks[st.pos].1;
            let t = decl_type(kind_at(toks, st.pos + 2))->0;
            let with_value = is_kind(toks, st.pos + 3, TokenType::Assignment);
            &&& !with_value ==> declaration(toks, st) == Ok::<(NodeV, PState), ParseError>(
                (
                    NodeV::Assign(name, t, ExprV::Default(t)),
                    PState { pos: st.pos + 3, types: st.types.insert(name, t), ..st },
                ),
            )
            &&& with_value ==> (declaration(toks, st) is Ok <==> expr(
                toks,
                st.pos + 4,
                st.types.insert(name, t),
            ) is Ok)
            &&& declaration(toks, st) matches Ok((NodeV::Assign(nm, tt, e), st2)) ==> nm == name
                && tt == t && st2.types == st.types.insert(name, t)
        }),
{
}

/// A reassignment takes the type of the latest declaration of its name and leaves the type
/// table as it is; a name never declared is a fault.
pub proof fn law_reassignment_uses_latest(toks: Seq<TokV>, st: PState)
    requires
        0 <= st.pos,
        is_kind(toks, st.pos, TokenType::ID),
        is_kind(toks, st.pos + 1, TokenType::Assignment),
        expr(toks, st.pos + 2, st.types) is Ok,
    ensures
        ({
            let name = toks[st.pos].1;
            let (e, after) = expr(toks, st.pos + 2, st.types)->Ok_0;
            &&& st.types.contains_key(name) ==> reassignment(toks, st) == Ok::<
                (NodeV, PState),
                ParseError,
            >(
                (
                    NodeV::Assign(name, st.types[name], e),
                    PState {
                        pos: after,
                        types: st.types,
                        warnings: checked(st.warnings, e, st.types[name], st.pos),
                    },
                ),
            )
            &&& !st.types.contains_key(name) ==> reassignment(toks, st) == Err::<
                (NodeV, PState),
                ParseError,
            >(ParseError::UndeclaredVariable(st.pos as usize))
        }),
{
}

/// Dividing any integer by zero is a division-by-zero fault.
pub proof fn law_int_division_by_zero(a: i32)
    ensures
        binop(Value::Int(a), Value::Int(0), '/') == Err::<Value, RuntimeError>(
            RuntimeError::DivisionByZero,
        ),
{
}

/// A division whose operands evaluate to an integer and to zero never yields a value: it
/// fails with a division-by-zero fault.
pub proof fn law_division_by_zero(m: Machine, b: binOpNode, d: nat)
    requires
        d > 0,
        b.op == '/',
        eval(m, b.left, (d - 1) as nat).1 is Ok,
        eval(m, b.left, (d - 1) as nat).1->Ok_0 is Int,
        eval(eval(m, b.left, (d - 1) as nat).0, b.right, (d - 1) as nat).1 == Ok::<
            Value,
            RuntimeError,
        >(Value::Int(0)),
    ensures
        eval(m, expressionNode::BinOp(Box::new(b)), d).1 == Err::<Value, RuntimeError>(
            RuntimeError::DivisionByZero,
        ),
{
}

/// Calling a name that no function was declared under, and that is no built-in, evaluates
/// its arguments and yields `Void` without a fault.
pub proof fn law_unknown_call_is_void(m: Machine, c: crate::ast::callNode, d: nat)
    requires
        d > 0,
        eval_args(m, c.args@, 0, Seq::empty(), (d - 1) as nat).1 is Ok,
        !eval_args(m, c.args@, 0, Seq::empty(), (d - 1) as nat).0.funcs.contains_key(
            c.function_name@,
        ),
        !is_print(c.function_name@),
        !is_println(c.function_name@),
        !is_scan(c.function_name@),
        !is_quit(c.function_name@),
    ensures
        eval(m, expressionNode::FunctionCall(c), d) == (
            eval_args(m, c.args@, 0, Seq::empty(), (d - 1) as nat).0,
            Ok::<Value, RuntimeError>(Value::Void),
        ),
{
}

proof fn lemma_frame_domain(params: Seq<Arg>, vals: Seq<Value>, n: nat, x: Seq<char>)
    requires
        n <= params.len(),
        forall|i: int| 0 <= i < n ==> (#[trigger] params[i]).name@ != x,
    ensures
        !frame(params, vals, n).contains_key(x),
    decreases n,
{
    if n > 0 {
        lemma_frame_domain(params, vals, (n - 1) as nat, x);
    }
}

/// A function body runs in an environment made of its parameters alone: a variable that is
/// not a parameter is undefined there, whatever the caller's environment binds.
pub proof fn law_callee_isolation(
    params: Seq<Arg>,
    vals: Seq<Value>,
    caller: Machine,
    v: variableNode,
    d: nat,
)
    requires
        d > 0,
        vals.len() == params.len(),
        forall|i: int| 0 <= i < params.len() ==> (#[trigger] params[i]).name@ != v.name@,
    ensures
        eval(
            Machine { vars: frame(params, vals, vals.len()), ..caller },
            expressionNode::Variable(v),
            d,
        ).1 == Err::<Value, RuntimeError>(RuntimeError::UndefinedVariable(v.name)),
{
    lemma_frame_domain(params, vals, vals.len(), v.name@);
}

/// The type table is last-write-wins: a reassignment that follows a declaration of the same
/// name is typed, and checked, by that declaration's type, whatever was declared before.
pub proof fn law_redeclaration_retypes(toks: Seq<TokV>, st: PState)
    requires
        declaration(toks, st) is Ok,
        ({
            let st2 = declaration(toks, st)->Ok_0.1;
            &&& is_kind(toks, st2.pos + 1, TokenType::Assignment)
            &&& toks[st2.pos].1 == toks[st.pos].1
            &&& reassignment(toks, st2) is Ok
        }),
    ensures
        ({
            let (n1, st2) = declaration(toks, st)->Ok_0;
            let (n2, st3) = reassignment(toks, st2)->Ok_0;
            &&& n1 matches NodeV::Assign(_, t, _)
            &&& n2 matches NodeV::Assign(_, t2, e)
            &&& t2 == t
            &&& st3.warnings == checked(st2.warnings, e, t, st2.pos)
        }),
{
}

} // verus!
