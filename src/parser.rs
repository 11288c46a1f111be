use vstd::prelude::*;
use crate::ast::{
    Arg, lemma_char_view, ExprV, Node, NodeV, Type, assignmentNode, binOpNode, callNode, expr_view, exprs_view,
    expressionNode, functionNode, lemma_exprs_view_push, lemma_nodes_view_push, node_view,
    nodes_view, numberNode, params_view, returnNode, scopeNode, variableNode,
};
use crate::lexer::{chars_of, is_digit, spells};
use crate::table::NameTable;
use crate::token::{Token, TokenType, TokV, tokens_view};

verus! {

/// A fatal syntax or declaration fault, with the index of the token where it was found
/// (the number of tokens when it was found at the end).
#[derive(Debug, Clone, Copy, PartialEq, Eq, Structural)]
pub enum ParseError {
    /// A token of the given kind was required.
    Unexpected(usize, TokenType),
    /// A type keyword was required.
    UnknownType(usize),
    /// A variable was used or reassigned without a declaration.
    UndeclaredVariable(usize),
    /// A token that starts no statement: an identifier that `:`, `=` or `(` does not
    /// follow, or a `}` that closes no function body.
    InvalidStatement(usize),
    /// No expression can start here.
    ExpectedExpression(usize),
    /// An integer literal that is not made of digits, or exceeds the widest integer.
    InvalidNumber(usize),
    /// An empty char literal.
    EmptyChar(usize),
}

/// Parser state as a mathematical object: the cursor, the declaration-time type table and
/// the positions of assignments whose value did not fit the type recorded for the target.
pub ghost struct PState {
    pub pos: int,
    pub types: Map<Seq<char>, Type>,
    pub warnings: Seq<usize>,
}

pub open spec fn kind_at(toks: Seq<TokV>, p: int) -> Option<TokenType> {
    if 0 <= p < toks.len() {
        Some(toks[p].0)
    } else {
        None
    }
}

pub open spec fn is_kind(toks: Seq<TokV>, p: int, k: TokenType) -> bool {
    kind_at(toks, p) == Some(k)
}

pub open spec fn op_at(toks: Seq<TokV>, p: int, c: char) -> bool {
    is_kind(toks, p, TokenType::Operator) && toks[p].1 == seq![c]
}

/// The type that a type keyword names in a declaration.
pub open spec fn decl_type(k: Option<TokenType>) -> Option<Type> {
    match k {
        Some(TokenType::IntType) => Some(Type::Int),
        Some(TokenType::StringType) => Some(Type::String),
        Some(TokenType::BoolType) => Some(Type::Bool),
        Some(TokenType::CharType) => Some(Type::Char),
        Some(TokenType::LongType) => Some(Type::Long),
        Some(TokenType::ShortType) => Some(Type::Short),
        Some(TokenType::FloatType) => Some(Type::Float),
        _ => None,
    }
}

/// The type that a type keyword names in a function signature.
pub open spec fn sig_type(k: Option<TokenType>) -> Option<Type> {
    match k {
        Some(TokenType::IntType) => Some(Type::Int),
        Some(TokenType::StringType) => Some(Type::String),
        Some(TokenType::BoolType) => Some(Type::Bool),
        Some(TokenType::VoidType) => Some(Type::Void),
        _ => None,
    }
}

pub open spec fn digit_value(c: char) -> int {
    (c as u32) as int - ('0' as u32) as int
}

pub open spec fn all_digits(s: Seq<char>) -> bool {
    forall|i: int| 0 <= i < s.len() ==> is_digit(#[trigger] s[i])
}

/// The number that a string of decimal digits denotes.
pub open spec fn decimal_value(s: Seq<char>) -> int
    decreases s.len(),
{
    if s.len() == 0 {
        0
    } else {
        decimal_value(s.drop_last()) * 10 + digit_value(s.last())
    }
}

/// Largest literal that stays a narrow integer; larger ones become wide.
pub const NARROW_LIMIT: i128 = 3600;

/// The expression an integer literal denotes: narrow up to the limit, wide above it.
pub open spec fn literal_expr(s: Seq<char>) -> Option<ExprV> {
    if s.len() == 0 || !all_digits(s) || decimal_value(s) > i128::MAX {
        None
    } else if decimal_value(s) > NARROW_LIMIT {
        Some(ExprV::Long(decimal_value(s) as i128))
    } else {
        Some(ExprV::Number(decimal_value(s) as i32))
    }
}

/// Whether a value of the expression's shape fits a target of type `t` (the declaration-time
/// check: literals and variables by their type, operations by both operands, defaults always).
pub open spec fn fits_type(e: ExprV, t: Type) -> bool
    decreases e,
{
    match e {
        ExprV::Number(_) => t == Type::Int,
        ExprV::Long(_) => t == Type::Long,
        ExprV::Float => t == Type::Float,
        ExprV::Str(_) => t == Type::String,
        ExprV::Char(_) => t == Type::Char,
        ExprV::Bool(_) => t == Type::Bool,
        ExprV::Default(_) => true,
        ExprV::Var(_, vt) => vt == t,
        ExprV::BinOp(l, r, _) => fits_type(*l, t) && fits_type(*r, t),
        ExprV::Call(_, _) => false,
    }
}

pub open spec fn expr(toks: Seq<TokV>, p: int, ty: Map<Seq<char>, Type>) -> Result<(ExprV, int), ParseError>
    decreases toks.len() - p, 5int,
{
    if p < 0 || p > toks.len() {
        Err(ParseError::ExpectedExpression(p as usize))
    } else {
        match term(toks, p, ty) {
            Err(x) => Err(x),
            Ok((l, next)) => if p <= next <= toks.len() {
                term_tail(toks, l, next, ty)
            } else {
                Ok((l, next))
            },
        }
    }
}

pub open spec fn term_tail(toks: Seq<TokV>, left: ExprV, p: int, ty: Map<Seq<char>, Type>) -> Result<
    (ExprV, int),
    ParseError,
>
    decreases toks.len() - p, 4int,
{
    if op_at(toks, p, '+') || op_at(toks, p, '-') {
        match term(toks, p + 1, ty) {
            Err(x) => Err(x),
            Ok((r, next2)) => {
                let n = ExprV::BinOp(Box::new(left), Box::new(r), toks[p].1[0]);
                if p < next2 <= toks.len() {
                    term_tail(toks, n, next2, ty)
                } else {
                    Ok((n, next2))
                }
            },
        }
    } else {
        Ok((left, p))
    }
}

pub open spec fn term(toks: Seq<TokV>, p: int, ty: Map<Seq<char>, Type>) -> Result<(ExprV, int), ParseError>
    decreases toks.len() - p, 3int,
{
    if p < 0 || p > toks.len() {
        Err(ParseError::ExpectedExpression(p as usize))
    } else {
        match factor(toks, p, ty) {
            Err(x) => Err(x),
            Ok((l, next)) => if p <= next <= toks.len() {
                factor_tail(toks, l, next, ty)
            } else {
                Ok((l, next))
            },
        }
    }
}

pub open spec fn factor_tail(toks: Seq<TokV>, left: ExprV, p: int, ty: Map<Seq<char>, Type>) -> Result<
    (ExprV, int),
    ParseError,
>
    decreases toks.len() - p, 2int,
{
    if op_at(toks, p, '*') || op_at(toks, p, '/') {
        match factor(toks, p + 1, ty) {
            Err(x) => Err(x),
            Ok((r, next2)) => {
                let n = ExprV::BinOp(Box::new(left), Box::new(r), toks[p].1[0]);
                if p < next2 <= toks.len() {
                    factor_tail(toks, n, next2, ty)
                } else {
                    Ok((n, next2))
                }
            },
        }
    } else {
        Ok((left, p))
    }
}

pub open spec fn factor(toks: Seq<TokV>, p: int, ty: Map<Seq<char>, Type>) -> Result<(ExprV, int), ParseError>
    decreases toks.len() - p, 1int,
{
    match kind_at(toks, p) {
        Some(TokenType::IntLiteral) => match literal_expr(toks[p].1) {
            Some(e) => Ok((e, p + 1)),
            None => Err(ParseError::InvalidNumber(p as usize)),
        },
        Some(TokenType::FloatLiteral) => Ok((ExprV::Float, p + 1)),
        Some(TokenType::StringLiteral) => Ok((ExprV::Str(toks[p].1), p + 1)),
        Some(TokenType::CharLiteral) => if toks[p].1.len() > 0 {
            Ok((ExprV::Char(toks[p].1[0]), p + 1))
        } else {
            Err(ParseError::EmptyChar(p as usize))
        },
        Some(TokenType::True) => Ok((ExprV::Bool(true), p + 1)),
        Some(TokenType::False) => Ok((ExprV::Bool(false), p + 1)),
        Some(TokenType::ID) => if is_kind(toks, p + 1, TokenType::LParen) {
            if is_kind(toks, p + 2, TokenType::RParen) {
                Ok((ExprV::Call(toks[p].1, Seq::empty()), p + 3))
            } else {
                match args_from(toks, p + 2, Seq::empty(), ty) {
                    Err(x) => Err(x),
                    Ok((args, next)) => Ok((ExprV::Call(toks[p].1, args), next)),
                }
            }
        } else if ty.contains_key(toks[p].1) {
            Ok((ExprV::Var(toks[p].1, ty[toks[p].1]), p + 1))
        } else {
            Err(ParseError::UndeclaredVariable(p as usize))
        },
        Some(TokenType::LParen) => match expr(toks, p + 1, ty) {
            Err(x) => Err(x),
            Ok((e, next)) => if is_kind(toks, next, TokenType::RParen) {
                Ok((e, next + 1))
            } else {
                Err(ParseError::Unexpected(next as usize, TokenType::RParen))
            },
        },
        _ => Err(ParseError::ExpectedExpression(p as usize)),
    }
}

/// Arguments from `p` up to the closing `)`, after the ones in `acc`.
pub open spec fn args_from(toks: Seq<TokV>, p: int, acc: Seq<ExprV>, ty: Map<Seq<char>, Type>) -> Result<
    (Seq<ExprV>, int),
    ParseError,
>
    decreases toks.len() - p, 6int,
{
    if p < 0 || p > toks.len() {
        Err(ParseError::ExpectedExpression(p as usize))
    } else {
        match expr(toks, p, ty) {
            Err(x) => Err(x),
            Ok((e, next)) => if is_kind(toks, next, TokenType::Coma) && p <= next {
                args_from(toks, next + 1, acc.push(e), ty)
            } else if is_kind(toks, next, TokenType::RParen) {
                Ok((acc.push(e), next + 1))
            } else {
                Err(ParseError::Unexpected(next as usize, TokenType::RParen))
            },
        }
    }
}

pub proof fn lemma_decimal_nonneg(s: Seq<char>)
    requires
        all_digits(s),
    ensures
        decimal_value(s) >= 0,
    decreases s.len(),
{
    if s.len() > 0 {
        assert(all_digits(s.drop_last()));
        lemma_decimal_nonneg(s.drop_last());
    }
}

/// Appending digits never makes the value smaller.
pub proof fn lemma_decimal_prefix(s: Seq<char>, k: int)
    requires
        all_digits(s),
        0 <= k <= s.len(),
    ensures
        decimal_value(s.take(k)) <= decimal_value(s),
    decreases s.len(),
{
    if k == s.len() {
        assert(s.take(k) =~= s);
    } else {
        let t = s.drop_last();
        assert(all_digits(t));
        lemma_decimal_prefix(t, k);
        lemma_decimal_nonneg(t);
        assert(t.take(k) =~= s.take(k));
    }
}

/// The expression an integer literal's text denotes, or `None` when it is no valid literal.
fn literal_of(text: &String) -> (r: Option<expressionNode>)
    ensures
        match r {
            Some(e) => literal_expr(text@) == Some(expr_view(e)),
            None => literal_expr(text@) is None,
        },
{
    let cs = chars_of(text);
    if cs.len() == 0 {
        return None;
    }
    let mut v: i128 = 0;
    let mut i: usize = 0;
    while i < cs.len()
        invariant
            cs@ == text@,
            i <= cs@.len(),
            v as int == decimal_value(cs@.take(i as int)),
            0 <= v,
            all_digits(cs@.take(i as int)),
        decreases cs.len() - i,
    {
        let c = cs[i];
        proof {
            assert(cs@.take(i + 1).drop_last() =~= cs@.take(i as int));
        }
        if !('0' <= c && c <= '9') {
            proof {
                assert(!all_digits(text@)) by {
                    assert(!is_digit(text@[i as int]));
                }
            }
            return None;
        }
        let d: i128 = (c as u32 - '0' as u32) as i128;
        if v > (i128::MAX - d) / 10 {
            proof {
                assert(v * 10 + d > i128::MAX) by (nonlinear_arith)
                    requires
                        v > (i128::MAX - d) / 10,
                        0 <= d <= 9,
                ;
                assert(all_digits(cs@.take(i + 1)));
                if all_digits(text@) {
                    lemma_decimal_prefix(text@, i + 1);
                }
            }
            return None;
        }
        proof {
            assert(v * 10 + d <= i128::MAX) by (nonlinear_arith)
                requires
                    v <= (i128::MAX - d) / 10,
                    0 <= d <= 9,
            ;
        }
        v = v * 10 + d;
        i += 1;
        proof {
            assert(all_digits(cs@.take(i as int)));
        }
    }
    proof {
        assert(cs@.take(i as int) =~= text@);
    }
    if v > NARROW_LIMIT {
        Some(expressionNode::LongExpression(v))
    } else {
        Some(expressionNode::Number(numberNode::new(v as i32)))
    }
}

/// The type table after recording the first `n` parameters, in order.
pub open spec fn with_params(ty: Map<Seq<char>, Type>, ps: Seq<(Seq<char>, Type)>, n: nat) -> Map<
    Seq<char>,
    Type,
>
    decreases n,
{
    if n == 0 || n > ps.len() {
        ty
    } else {
        with_params(ty, ps, (n - 1) as nat).insert(ps[n - 1].0, ps[n - 1].1)
    }
}

/// Parameters `name: type` separated by `,` from `q` up to (not including) the `)`.
pub open spec fn params_from(toks: Seq<TokV>, q: int, acc: Seq<(Seq<char>, Type)>) -> Result<
    (Seq<(Seq<char>, Type)>, int),
    ParseError,
>
    decreases toks.len() - q,
{
    if q < 0 || q > toks.len() {
        Err(ParseError::Unexpected(q as usize, TokenType::RParen))
    } else if is_kind(toks, q, TokenType::RParen) {
        Ok((acc, q))
    } else if is_kind(toks, q, TokenType::ID) {
        if !is_kind(toks, q + 1, TokenType::Colon) {
            Err(ParseError::Unexpected((q + 1) as usize, TokenType::Colon))
        } else {
            match sig_type(kind_at(toks, q + 2)) {
                None => Err(ParseError::UnknownType((q + 2) as usize)),
                Some(t) => {
                    let acc2 = acc.push((toks[q].1, t));
                    if is_kind(toks, q + 3, TokenType::Coma) {
                        params_from(toks, q + 4, acc2)
                    } else {
                        Ok((acc2, q + 3))
                    }
                },
            }
        }
    } else {
        Err(ParseError::Unexpected(q as usize, TokenType::ID))
    }
}

/// The warnings after checking a value against the type of its target at position `p`.
pub open spec fn checked(w: Seq<usize>, e: ExprV, t: Type, p: int) -> Seq<usize> {
    if fits_type(e, t) {
        w
    } else {
        w.push(p as usize)
    }
}

/// `name: type` with an optional `= value`; the type is recorded before the value is parsed.
pub open spec fn declaration(toks: Seq<TokV>, st: PState) -> Result<(NodeV, PState), ParseError> {
    let p = st.pos;
    let name = toks[p].1;
    match decl_type(kind_at(toks, p + 2)) {
        None => Err(ParseError::UnknownType((p + 2) as usize)),
        Some(t) => {
            let ty = st.types.insert(name, t);
            if is_kind(toks, p + 3, TokenType::Assignment) {
                match expr(toks, p + 4, ty) {
                    Err(x) => Err(x),
                    Ok((e, next5)) => Ok(
                        (
                            NodeV::Assign(name, t, e),
                            PState { pos: next5, types: ty, warnings: checked(st.warnings, e, t, p) },
                        ),
                    ),
                }
            } else {
                Ok(
                    (
                        NodeV::Assign(name, t, ExprV::Default(t)),
                        PState { pos: p + 3, types: ty, warnings: st.warnings },
                    ),
                )
            }
        },
    }
}

/// `name = value`, typed by the last declaration of `name`.
pub open spec fn reassignment(toks: Seq<TokV>, st: PState) -> Result<(NodeV, PState), ParseError> {
    let p = st.pos;
    let name = toks[p].1;
    match expr(toks, p + 2, st.types) {
        Err(x) => Err(x),
        Ok((e, next3)) => if st.types.contains_key(name) {
            let t = st.types[name];
            Ok(
                (
                    NodeV::Assign(name, t, e),
                    PState { pos: next3, types: st.types, warnings: checked(st.warnings, e, t, p) },
                ),
            )
        } else {
            Err(ParseError::UndeclaredVariable(p as usize))
        },
    }
}

/// Statements up to the end or to a `}`, after the ones in `acc`; a `;` between them is
/// skipped.
pub open spec fn block(toks: Seq<TokV>, st: PState, acc: Seq<NodeV>) -> Result<
    (Seq<NodeV>, PState),
    ParseError,
>
    decreases toks.len() - st.pos, 2int,
{
    if st.pos < 0 || st.pos >= toks.len() || is_kind(toks, st.pos, TokenType::RBracket) {
        Ok((acc, st))
    } else if is_kind(toks, st.pos, TokenType::SemiColon) {
        block(toks, PState { pos: st.pos + 1, ..st }, acc)
    } else {
        match statement(toks, st) {
            Err(x) => Err(x),
            Ok((n, st2)) => if st.pos < st2.pos <= toks.len() {
                block(toks, st2, acc.push(n))
            } else {
                Ok((acc.push(n), st2))
            },
        }
    }
}

/// One statement, chosen by its first token (and, for an identifier, the one after it).
pub open spec fn statement(toks: Seq<TokV>, st: PState) -> Result<(NodeV, PState), ParseError>
    decreases toks.len() - st.pos, 1int,
{
    let p = st.pos;
    if p < 0 || p >= toks.len() {
        Err(ParseError::ExpectedExpression(p as usize))
    } else {
        match kind_at(toks, p) {
            Some(TokenType::ID) => if is_kind(toks, p + 1, TokenType::Colon) {
                declaration(toks, st)
            } else if is_kind(toks, p + 1, TokenType::Assignment) {
                reassignment(toks, st)
            } else if is_kind(toks, p + 1, TokenType::LParen) {
                match factor(toks, p, st.types) {
                    Err(x) => Err(x),
                    Ok((e, next)) => Ok((NodeV::Expr(e), PState { pos: next, ..st })),
                }
            } else {
                Err(ParseError::InvalidStatement(p as usize))
            },
            Some(TokenType::Fn) => fn_decl(toks, st),
            Some(TokenType::Return) => match expr(toks, p + 1, st.types) {
                Err(x) => Err(x),
                Ok((e, next)) => Ok((NodeV::Return(e), PState { pos: next, ..st })),
            },
            _ => match expr(toks, p, st.types) {
                Err(x) => Err(x),
                Ok((e, next)) => Ok((NodeV::Expr(e), PState { pos: next, ..st })),
            },
        }
    }
}

/// `fn name(params) -> type { body }`; the parameters' types are recorded for the rest of
/// the parse.
pub open spec fn fn_decl(toks: Seq<TokV>, st: PState) -> Result<(NodeV, PState), ParseError>
    decreases toks.len() - st.pos, 0int,
{
    let p = st.pos;
    if !is_kind(toks, p + 1, TokenType::ID) {
        Err(ParseError::Unexpected((p + 1) as usize, TokenType::ID))
    } else if !is_kind(toks, p + 2, TokenType::LParen) {
        Err(ParseError::Unexpected((p + 2) as usize, TokenType::LParen))
    } else {
        match params_from(toks, p + 3, Seq::empty()) {
            Err(x) => Err(x),
            Ok((ps, q)) => if !is_kind(toks, q, TokenType::RParen) {
                Err(ParseError::Unexpected(q as usize, TokenType::RParen))
            } else if !is_kind(toks, q + 1, TokenType::RetOp) {
                Err(ParseError::Unexpected((q + 1) as usize, TokenType::RetOp))
            } else {
                match sig_type(kind_at(toks, q + 2)) {
                    None => Err(ParseError::UnknownType((q + 2) as usize)),
                    Some(rt) => if !is_kind(toks, q + 3, TokenType::LBracket) {
                        Err(ParseError::Unexpected((q + 3) as usize, TokenType::LBracket))
                    } else if p < q + 4 <= toks.len() {
                        let inner = PState {
                            pos: q + 4,
                            types: with_params(st.types, ps, ps.len()),
                            warnings: st.warnings,
                        };
                        match block(toks, inner, Seq::empty()) {
                            Err(x) => Err(x),
                            Ok((body, st2)) => if is_kind(toks, st2.pos, TokenType::RBracket) {
                                Ok(
                                    (
                                        NodeV::Func(toks[p + 1].1, ps, body, rt),
                                        PState { pos: st2.pos + 1, ..st2 },
                                    ),
                                )
                            } else {
                                Err(ParseError::Unexpected(st2.pos as usize, TokenType::RBracket))
                            },
                        }
                    } else {
                        Err(ParseError::Unexpected((q + 3) as usize, TokenType::LBracket))
                    },
                }
            },
        }
    }
}

/// Parsing a whole token sequence from the start, with the type table and warnings of `st`.
/// Every token must belong to a statement: a `}` outside any function body is a fault.
pub open spec fn parse_all(toks: Seq<TokV>, st: PState) -> Result<(Seq<NodeV>, PState), ParseError> {
    match block(toks, PState { pos: 0, ..st }, Seq::empty()) {
        Err(x) => Err(x),
        Ok((nodes, st2)) => if 0 <= st2.pos < toks.len() {
            Err(ParseError::InvalidStatement(st2.pos as usize))
        } else {
            Ok((nodes, st2))
        },
    }
}

pub open spec fn expr_res(
    r: Result<expressionNode, ParseError>,
    s: Result<(ExprV, int), ParseError>,
    p: int,
) -> bool {
    match r {
        Ok(e) => s == Ok::<(ExprV, int), ParseError>((expr_view(e), p)),
        Err(x) => s == Err::<(ExprV, int), ParseError>(x),
    }
}

pub open spec fn node_res(r: Result<Node, ParseError>, s: Result<(NodeV, PState), ParseError>, st: PState) -> bool {
    match r {
        Ok(n) => s == Ok::<(NodeV, PState), ParseError>((node_view(n), st)),
        Err(x) => s == Err::<(NodeV, PState), ParseError>(x),
    }
}

/// Whether the expression fits a target of type `t` by the declaration-time check.
pub fn fits(e: &expressionNode, t: Type) -> (r: bool)
    ensures
        r == fits_type(expr_view(*e), t),
    decreases e,
{
    match e {
        expressionNode::Number(_) => t == Type::Int,
        expressionNode::LongExpression(_) => t == Type::Long,
        expressionNode::FloatExpression => t == Type::Float,
        expressionNode::StringLiteral(_) => t == Type::String,
        expressionNode::CharLiteral(_) => t == Type::Char,
        expressionNode::Bool(_) => t == Type::Bool,
        expressionNode::DefaultValue(_) => true,
        expressionNode::Variable(v) => v.typeS == t,
        expressionNode::BinOp(b) => fits(&b.left, t) && fits(&b.right, t),
        expressionNode::FunctionCall(_) => false,
    }
}

fn sig_of(k: Option<TokenType>) -> (r: Option<Type>)
    ensures
        r == sig_type(k),
{
    match k {
        Some(TokenType::IntType) => Some(Type::Int),
        Some(TokenType::StringType) => Some(Type::String),
        Some(TokenType::BoolType) => Some(Type::Bool),
        Some(TokenType::VoidType) => Some(Type::Void),
        _ => None,
    }
}

fn decl_of(k: Option<TokenType>) -> (r: Option<Type>)
    ensures
        r == decl_type(k),
{
    match k {
        Some(TokenType::IntType) => Some(Type::Int),
        Some(TokenType::StringType) => Some(Type::String),
        Some(TokenType::BoolType) => Some(Type::Bool),
        Some(TokenType::CharType) => Some(Type::Char),
        Some(TokenType::LongType) => Some(Type::Long),
        Some(TokenType::ShortType) => Some(Type::Short),
        Some(TokenType::FloatType) => Some(Type::Float),
        _ => None,
    }
}

/// Recursive-descent parser over a token sequence, with the declaration-time type table.
pub struct Parser {
    tokens_clone: Vec<Token>,
    pos: usize,
    variable_types: NameTable<Type>,
    warnings: Vec<usize>,
}

impl Parser {
    pub closed spec fn toks(&self) -> Seq<TokV> {
        tokens_view(self.tokens_clone@)
    }

    pub closed spec fn state(&self) -> PState {
        PState { pos: self.pos as int, types: self.variable_types@, warnings: self.warnings@ }
    }

    pub closed spec fn wf(&self) -> bool {
        self.pos <= self.tokens_clone.len()
    }

    pub closed spec fn same_tokens(&self, other: &Parser) -> bool {
        self.tokens_clone@ == other.tokens_clone@
    }

    /// Same tokens, type table and warnings.
    pub closed spec fn same_context(&self, other: &Parser) -> bool {
        &&& self.tokens_clone@ == other.tokens_clone@
        &&& self.variable_types@ == other.variable_types@
        &&& self.warnings@ == other.warnings@
    }

    pub fn new() -> (r: Self)
        ensures
            r.wf(),
            r.toks() == Seq::<TokV>::empty(),
            r.state() == (PState { pos: 0, types: Map::empty(), warnings: Seq::empty() }),
    {
        let r = Self {
            tokens_clone: Vec::new(),
            pos: 0,
            variable_types: NameTable::new(),
            warnings: Vec::new(),
        };
        proof {
            assert(r.toks() =~= Seq::<TokV>::empty());
        }
        r
    }

    /// Positions of the assignments whose value did not fit the type recorded for their
    /// target. The check is advisory: such assignments are still parsed and run.
    pub fn warnings(&self) -> (r: &Vec<usize>)
        ensures
            r@ == self.state().warnings,
    {
        &self.warnings
    }

    /// The token under the cursor, if any.
    pub fn current(&self) -> (r: Option<&Token>)
        ensures
            match r {
                Some(t) => 0 <= self.state().pos < self.toks().len() && t@ == self.toks()[self.state().pos],
                None => !(0 <= self.state().pos < self.toks().len()),
            },
    {
        if self.pos < self.tokens_clone.len() {
            Some(&self.tokens_clone[self.pos])
        } else {
            None
        }
    }

    fn kind(&self, p: usize) -> (r: Option<TokenType>)
        ensures
            r == kind_at(self.toks(), p as int),
            r is Some ==> p < self.tokens_clone.len(),
    {
        if p < self.tokens_clone.len() {
            Some(self.tokens_clone[p].get_type())
        } else {
            None
        }
    }

    fn is_op(&self, p: usize, c: char) -> (r: bool)
        ensures
            r == op_at(self.toks(), p as int, c),
            r ==> p < self.tokens_clone.len(),
    {
        if p < self.tokens_clone.len() {
            match self.tokens_clone[p].get_type() {
                TokenType::Operator => {
                    let cs = chars_of(self.tokens_clone[p].text());
                    let one = vec![c];
                    proof {
                        assert(one@ =~= seq![c]);
                    }
                    spells(&cs, &one)
                },
                _ => false,
            }
        } else {
            false
        }
    }

    fn eat(&mut self, want_type: TokenType) -> (r: Result<(), ParseError>)
        requires
            old(self).wf(),
        ensures
            final(self).wf(),
            final(self).same_context(old(self)),
            r is Ok <==> is_kind(old(self).toks(), old(self).state().pos, want_type),
            r is Ok ==> final(self).state().pos == old(self).state().pos + 1,
            r matches Err(x) ==> x == ParseError::Unexpected(old(self).pos, want_type),
    {
        match self.kind(self.pos) {
            Some(k) => {
                if k == want_type {
                    self.pos += 1;
                    return Ok(());
                }
            },
            None => {},
        }
        Err(ParseError::Unexpected(self.pos, want_type))
    }

    /// Parses one expression at the cursor.
    pub fn expr(&mut self) -> (r: Result<expressionNode, ParseError>)
        requires
            old(self).wf(),
        ensures
            final(self).wf(),
            final(self).same_context(old(self)),
            r is Ok ==> old(self).state().pos < final(self).state().pos,
            expr_res(r, expr(old(self).toks(), old(self).state().pos, old(self).state().types), final(self).state().pos),
        decreases old(self).toks().len() - old(self).state().pos, 5int,
    {
        let left = match self.term() {
            Ok(l) => l,
            Err(x) => {
                return Err(x);
            },
        };
        self.term_tail(left)
    }

    fn term_tail(&mut self, first: expressionNode) -> (r: Result<expressionNode, ParseError>)
        requires
            old(self).wf(),
        ensures
            final(self).wf(),
            final(self).same_context(old(self)),
            r is Ok ==> old(self).state().pos <= final(self).state().pos,
            expr_res(
                r,
                term_tail(old(self).toks(), expr_view(first), old(self).state().pos, old(self).state().types),
                final(self).state().pos,
            ),
        decreases old(self).toks().len() - old(self).state().pos, 4int,
    {
        let ghost pos0 = self.pos as int;
        let ghost toks = self.toks();
        let ghost ty = self.variable_types@;
        let ghost left0 = expr_view(first);
        let mut left = first;
        while self.is_op(self.pos, '+') || self.is_op(self.pos, '-')
            invariant
                self.wf(),
                self.same_context(old(self)),
                toks == self.toks(),
                ty == self.variable_types@,
                pos0 == old(self).pos,
                pos0 <= self.pos,
                left0 == expr_view(first),
                term_tail(toks, expr_view(left), self.pos as int, ty) == term_tail(toks, left0, pos0, ty),
            decreases self.tokens_clone@.len() - self.pos,
        {
            let op = if self.is_op(self.pos, '+') {
                '+'
            } else {
                '-'
            };
            self.pos += 1;
            let right = match self.term() {
                Ok(r) => r,
                Err(x) => {
                    return Err(x);
                },
            };
            left = expressionNode::BinOp(Box::new(binOpNode::new(left, right, op)));
        }
        Ok(left)
    }

    fn term(&mut self) -> (r: Result<expressionNode, ParseError>)
        requires
            old(self).wf(),
        ensures
            final(self).wf(),
            final(self).same_context(old(self)),
            r is Ok ==> old(self).state().pos < final(self).state().pos,
            expr_res(r, term(old(self).toks(), old(self).state().pos, old(self).state().types), final(self).state().pos),
        decreases old(self).toks().len() - old(self).state().pos, 3int,
    {
        let left = match self.factor() {
            Ok(l) => l,
            Err(x) => {
                return Err(x);
            },
        };
        self.factor_tail(left)
    }

    fn factor_tail(&mut self, first: expressionNode) -> (r: Result<expressionNode, ParseError>)
        requires
            old(self).wf(),
        ensures
            final(self).wf(),
            final(self).same_context(old(self)),
            r is Ok ==> old(self).state().pos <= final(self).state().pos,
            expr_res(
                r,
                factor_tail(old(self).toks(), expr_view(first), old(self).state().pos, old(self).state().types),
                final(self).state().pos,
            ),
        decreases old(self).toks().len() - old(self).state().pos, 2int,
    {
        let ghost pos0 = self.pos as int;
        let ghost toks = self.toks();
        let ghost ty = self.variable_types@;
        let ghost left0 = expr_view(first);
        let mut left = first;
        while self.is_op(self.pos, '*') || self.is_op(self.pos, '/')
            invariant
                self.wf(),
                self.same_context(old(self)),
                toks == self.toks(),
                ty == self.variable_types@,
                pos0 == old(self).pos,
                pos0 <= self.pos,
                left0 == expr_view(first),
                factor_tail(toks, expr_view(left), self.pos as int, ty) == factor_tail(toks, left0, pos0, ty),
            decreases self.tokens_clone@.len() - self.pos,
        {
            let op = if self.is_op(self.pos, '*') {
                '*'
            } else {
                '/'
            };
            self.pos += 1;
            let right = match self.factor() {
                Ok(r) => r,
                Err(x) => {
                    return Err(x);
                },
            };
            left = expressionNode::BinOp(Box::new(binOpNode::new(left, right, op)));
        }
        Ok(left)
    }

    fn args(&mut self) -> (r: Result<Vec<expressionNode>, ParseError>)
        requires
            old(self).wf(),
        ensures
            final(self).wf(),
            final(self).same_context(old(self)),
            r is Ok ==> old(self).state().pos < final(self).state().pos,
            match r {
                Ok(v) => args_from(old(self).toks(), old(self).state().pos, Seq::empty(), old(self).state().types)
                    == Ok::<(Seq<ExprV>, int), ParseError>((exprs_view(v@, v@.len()), final(self).state().pos)),
                Err(x) => args_from(old(self).toks(), old(self).state().pos, Seq::empty(), old(self).state().types)
                    == Err::<(Seq<ExprV>, int), ParseError>(x),
            },
        decreases old(self).toks().len() - old(self).state().pos, 6int,
    {
        let ghost pos0 = self.pos as int;
        let ghost toks = self.toks();
        let ghost ty = self.variable_types@;
        let mut args: Vec<expressionNode> = Vec::new();
        loop
            invariant
                self.wf(),
                self.same_context(old(self)),
                toks == self.toks(),
                ty == self.variable_types@,
                pos0 == old(self).pos,
                pos0 <= self.pos,
                args_from(toks, self.pos as int, exprs_view(args@, args@.len()), ty) == args_from(
                    toks,
                    pos0,
                    Seq::empty(),
                    ty,
                ),
            decreases self.tokens_clone@.len() - self.pos,
        {
            let e = match self.expr() {
                Ok(e) => e,
                Err(x) => {
                    return Err(x);
                },
            };
            proof {
                lemma_exprs_view_push(args@, e);
            }
            match self.kind(self.pos) {
                Some(TokenType::Coma) => {
                    args.push(e);
                    self.pos += 1;
                },
                Some(TokenType::RParen) => {
                    args.push(e);
                    self.pos += 1;
                    return Ok(args);
                },
                _ => {
                    return Err(ParseError::Unexpected(self.pos, TokenType::RParen));
                },
            }
        }
    }

    /// Parses one factor at the cursor: a literal, a variable, a call or a parenthesised
    /// expression.
    pub fn factor(&mut self) -> (r: Result<expressionNode, ParseError>)
        requires
            old(self).wf(),
        ensures
            final(self).wf(),
            final(self).same_context(old(self)),
            r is Ok ==> old(self).state().pos < final(self).state().pos,
            expr_res(r, factor(old(self).toks(), old(self).state().pos, old(self).state().types), final(self).state().pos),
        decreases old(self).toks().len() - old(self).state().pos, 1int,
    {
        let p = self.pos;
        match self.kind(p) {
            Some(TokenType::IntLiteral) => match literal_of(self.tokens_clone[p].text()) {
                Some(v) => {
                    self.pos = p + 1;
                    Ok(v)
                },
                None => Err(ParseError::InvalidNumber(p)),
            },
            Some(TokenType::FloatLiteral) => {
                self.pos = p + 1;
                let v = expressionNode::FloatExpression;
                Ok(v)
            },
            Some(TokenType::StringLiteral) => {
                let s = self.tokens_clone[p].get_value();
                self.pos = p + 1;
                let v = expressionNode::StringLiteral(s);
                Ok(v)
            },
            Some(TokenType::CharLiteral) => {
                let cs = chars_of(self.tokens_clone[p].text());
                proof {
                    assert(cs@ == self.toks()[p as int].1);
                }
                if cs.len() > 0 {
                    self.pos = p + 1;
                    let c0 = cs[0];
                    proof {
                        lemma_char_view(c0);
                    }
                    let v = expressionNode::CharLiteral(c0);
                    Ok(v)
                } else {
                    Err(ParseError::EmptyChar(p))
                }
            },
            Some(TokenType::True) => {
                self.pos = p + 1;
                let v = expressionNode::Bool(true);
                Ok(v)
            },
            Some(TokenType::False) => {
                self.pos = p + 1;
                let v = expressionNode::Bool(false);
                Ok(v)
            },
            Some(TokenType::ID) => {
                let name = self.tokens_clone[p].get_value();
                match self.kind(p + 1) {
                    Some(TokenType::LParen) => {
                        match self.kind(p + 2) {
                            Some(TokenType::RParen) => {
                                self.pos = p + 3;
                                let call = callNode::new(name, Vec::new());
                                proof {
                                    assert(exprs_view(call.args@, 0) =~= Seq::<ExprV>::empty());
                                }
                                let v = expressionNode::FunctionCall(call);
                                return Ok(v);
                            },
                            _ => {},
                        }
                        self.pos = p + 2;
                        match self.args() {
                            Ok(args) => {
                                Ok(expressionNode::FunctionCall(callNode::new(name, args)))
                            },
                            Err(x) => Err(x),
                        }
                    },
                    _ => match self.variable_types.get(&name) {
                        Some(t) => {
                            self.pos = p + 1;
                            Ok(expressionNode::Variable(variableNode::new(name, *t)))
                        },
                        None => Err(ParseError::UndeclaredVariable(p)),
                    },
                }
            },
            Some(TokenType::LParen) => {
                self.pos = p + 1;
                match self.expr() {
                    Err(x) => Err(x),
                    Ok(e) => {
                        match self.kind(self.pos) {
                            Some(TokenType::RParen) => {
                                self.pos += 1;
                                let v = e;
                                Ok(v)
                            },
                            _ => Err(ParseError::Unexpected(self.pos, TokenType::RParen)),
                        }
                    },
                }
            },
            _ => Err(ParseError::ExpectedExpression(p)),
        }
    }

    fn check(&mut self, e: &expressionNode, t: Type, p: usize)
        ensures
            final(self).same_tokens(old(self)),
            final(self).pos == old(self).pos,
            final(self).variable_types@ == old(self).state().types,
            final(self).warnings@ == checked(old(self).warnings@, expr_view(*e), t, p as int),
    {
        if !fits(e, t) {
            self.warnings.push(p);
        }
    }

    /// Parses `name: type` with an optional `= value` at the cursor and records the type.
    pub fn declaration(&mut self) -> (r: Result<Node, ParseError>)
        requires
            old(self).wf(),
            is_kind(old(self).toks(), old(self).state().pos + 1, TokenType::Colon),
            is_kind(old(self).toks(), old(self).state().pos, TokenType::ID),
        ensures
            final(self).wf(),
            final(self).same_tokens(old(self)),
            r is Ok ==> old(self).state().pos < final(self).state().pos,
            node_res(r, declaration(old(self).toks(), old(self).state()), final(self).state()),
    {
        let p = self.pos;
        let name = self.tokens_clone[p].get_value();
        let t = match decl_of(self.kind(p + 2)) {
            Some(t) => t,
            None => {
                return Err(ParseError::UnknownType(p + 2));
            },
        };
        self.variable_types.insert(name.clone(), t);
        self.pos = p + 3;
        match self.kind(p + 3) {
            Some(TokenType::Assignment) => {
                self.pos = p + 4;
                let e = match self.expr() {
                    Ok(e) => e,
                    Err(x) => {
                        return Err(x);
                    },
                };
                self.check(&e, t, p);
                Ok(Node::Assignment(assignmentNode::new(variableNode::new(name, t), e)))
            },
            _ => Ok(
                Node::Assignment(
                    assignmentNode::new(variableNode::new(name, t), expressionNode::DefaultValue(t)),
                ),
            ),
        }
    }

    /// Parses `name = value` at the cursor, typed by the last declaration of `name`.
    pub fn reassignment(&mut self) -> (r: Result<Node, ParseError>)
        requires
            old(self).wf(),
            is_kind(old(self).toks(), old(self).state().pos + 1, TokenType::Assignment),
            is_kind(old(self).toks(), old(self).state().pos, TokenType::ID),
        ensures
            final(self).wf(),
            final(self).same_tokens(old(self)),
            r is Ok ==> old(self).state().pos < final(self).state().pos,
            node_res(r, reassignment(old(self).toks(), old(self).state()), final(self).state()),
    {
        let p = self.pos;
        let name = self.tokens_clone[p].get_value();
        self.pos = p + 2;
        let e = match self.expr() {
            Ok(e) => e,
            Err(x) => {
                return Err(x);
            },
        };
        let t = match self.variable_types.get(&name) {
            Some(t) => *t,
            None => {
                return Err(ParseError::UndeclaredVariable(p));
            },
        };
        self.check(&e, t, p);
        Ok(Node::Assignment(assignmentNode::new(variableNode::new(name, t), e)))
    }

    fn statement(&mut self) -> (r: Result<Node, ParseError>)
        requires
            old(self).wf(),
        ensures
            final(self).wf(),
            final(self).same_tokens(old(self)),
            r is Ok ==> old(self).state().pos < final(self).state().pos,
            node_res(r, statement(old(self).toks(), old(self).state()), final(self).state()),
        decreases old(self).toks().len() - old(self).state().pos, 1int,
    {
        let p = self.pos;
        if p >= self.tokens_clone.len() {
            return Err(ParseError::ExpectedExpression(p));
        }
        match self.kind(p) {
            Some(TokenType::ID) => match self.kind(p + 1) {
                Some(TokenType::Colon) => self.declaration(),
                Some(TokenType::Assignment) => self.reassignment(),
                Some(TokenType::LParen) => match self.factor() {
                    Ok(e) => Ok(Node::ExpressionNode(e)),
                    Err(x) => Err(x),
                },
                _ => Err(ParseError::InvalidStatement(p)),
            },
            Some(TokenType::Fn) => self.custom_func(),
            Some(TokenType::Return) => {
                self.pos = p + 1;
                match self.expr() {
                    Ok(e) => Ok(Node::ReturnNode(returnNode::new(e))),
                    Err(x) => Err(x),
                }
            },
            _ => match self.expr() {
                Ok(e) => Ok(Node::ExpressionNode(e)),
                Err(x) => Err(x),
            },
        }
    }

    fn statement_list(&mut self) -> (r: Result<Vec<Node>, ParseError>)
        requires
            old(self).wf(),
        ensures
            final(self).wf(),
            final(self).same_tokens(old(self)),
            r is Ok ==> old(self).state().pos <= final(self).state().pos,
            match r {
                Ok(v) => block(old(self).toks(), old(self).state(), Seq::empty()) == Ok::<
                    (Seq<NodeV>, PState),
                    ParseError,
                >((nodes_view(v@, v@.len()), final(self).state())),
                Err(x) => block(old(self).toks(), old(self).state(), Seq::empty()) == Err::<
                    (Seq<NodeV>, PState),
                    ParseError,
                >(x),
            },
        decreases old(self).toks().len() - old(self).state().pos, 2int,
    {
        let ghost toks = self.toks();
        let ghost st0 = self.state();
        let mut nodes: Vec<Node> = Vec::new();
        proof {
            assert(nodes_view(nodes@, 0) =~= Seq::<NodeV>::empty());
        }
        loop
            invariant
                self.wf(),
                self.tokens_clone@ == old(self).tokens_clone@,
                toks == self.toks(),
                st0 == old(self).state(),
                st0.pos <= self.pos,
                block(toks, self.state(), nodes_view(nodes@, nodes@.len())) == block(
                    toks,
                    st0,
                    Seq::empty(),
                ),
            decreases self.tokens_clone@.len() - self.pos,
        {
            if self.pos >= self.tokens_clone.len() {
                return Ok(nodes);
            }
            match self.kind(self.pos) {
                Some(TokenType::RBracket) => {
                    return Ok(nodes);
                },
                Some(TokenType::SemiColon) => {
                    self.pos = self.pos + 1;
                    continue;
                },
                _ => {},
            }
            let n = match self.statement() {
                Ok(n) => n,
                Err(x) => {
                    return Err(x);
                },
            };
            proof {
                lemma_nodes_view_push(nodes@, n);
            }
            nodes.push(n);
        }
    }

    fn parse_scope(&mut self) -> (r: Result<scopeNode, ParseError>)
        requires
            old(self).wf(),
            is_kind(old(self).toks(), old(self).state().pos, TokenType::LBracket),
        ensures
            final(self).wf(),
            final(self).same_tokens(old(self)),
            r is Ok ==> old(self).state().pos < final(self).state().pos,
            match r {
                Ok(sc) => {
                    let inner = PState { pos: old(self).state().pos + 1, ..old(self).state() };
                    &&& block(old(self).toks(), inner, Seq::empty()) matches Ok((body, st2))
                    &&& body == nodes_view(sc.nodes@, sc.nodes@.len())
                    &&& is_kind(old(self).toks(), st2.pos, TokenType::RBracket)
                    &&& final(self).state() == PState { pos: st2.pos + 1, ..st2 }
                },
                Err(x) => {
                    let inner = PState { pos: old(self).state().pos + 1, ..old(self).state() };
                    ||| block(old(self).toks(), inner, Seq::empty()) == Err::<(Seq<NodeV>, PState), ParseError>(x)
                    ||| block(old(self).toks(), inner, Seq::empty()) matches Ok((_, st2)) && !is_kind(
                        old(self).toks(),
                        st2.pos,
                        TokenType::RBracket,
                    ) && x == ParseError::Unexpected(st2.pos as usize, TokenType::RBracket)
                },
            },
        decreases old(self).toks().len() - old(self).state().pos, 0int,
    {
        self.pos = self.pos + 1;
        let nodes = match self.statement_list() {
            Ok(v) => v,
            Err(x) => {
                return Err(x);
            },
        };
        match self.eat(TokenType::RBracket) {
            Ok(()) => Ok(scopeNode::new(nodes)),
            Err(x) => Err(x),
        }
    }

    fn custom_func(&mut self) -> (r: Result<Node, ParseError>)
        requires
            old(self).wf(),
            old(self).pos < old(self).tokens_clone@.len(),
        ensures
            final(self).wf(),
            final(self).same_tokens(old(self)),
            r is Ok ==> old(self).state().pos < final(self).state().pos,
            node_res(r, fn_decl(old(self).toks(), old(self).state()), final(self).state()),
        decreases old(self).toks().len() - old(self).state().pos, 0int,
    {
        let ghost toks = self.toks();
        let ghost st0 = self.state();
        let p = self.pos;
        let name = match self.kind(p + 1) {
            Some(TokenType::ID) => self.tokens_clone[p + 1].get_value(),
            _ => {
                return Err(ParseError::Unexpected(p + 1, TokenType::ID));
            },
        };
        self.pos = p + 2;
        match self.eat(TokenType::LParen) {
            Ok(()) => {},
            Err(x) => {
                return Err(x);
            },
        }
        let mut args: Vec<Arg> = Vec::new();
        proof {
            assert(params_view(args@) =~= Seq::<(Seq<char>, Type)>::empty());
        }
        loop
            invariant_except_break
                self.wf(),
                p == old(self).pos,
                st0 == old(self).state(),
                is_kind(toks, p + 1, TokenType::ID),
                is_kind(toks, p + 2, TokenType::LParen),
                self.state() == (PState { pos: self.pos as int, ..st0 }),
                self.tokens_clone@ == old(self).tokens_clone@,
                toks == self.toks(),
                p + 3 <= self.pos,
                params_from(toks, self.pos as int, params_view(args@)) == params_from(
                    toks,
                    p + 3,
                    Seq::empty(),
                ),
            ensures
                self.wf(),
                self.state() == (PState { pos: self.pos as int, ..st0 }),
                self.tokens_clone@ == old(self).tokens_clone@,
                toks == self.toks(),
                p + 3 <= self.pos,
                params_from(toks, p + 3, Seq::empty()) == Ok::<
                    (Seq<(Seq<char>, Type)>, int),
                    ParseError,
                >((params_view(args@), self.pos as int)),
            decreases self.tokens_clone@.len() - self.pos,
        {
            let q = self.pos;
            match self.kind(q) {
                Some(TokenType::RParen) => {
                    break;
                },
                Some(TokenType::ID) => {},
                _ => {
                    return Err(ParseError::Unexpected(q, TokenType::ID));
                },
            }
            let arg_name = self.tokens_clone[q].get_value();
            match self.kind(q + 1) {
                Some(TokenType::Colon) => {},
                _ => {
                    return Err(ParseError::Unexpected(q + 1, TokenType::Colon));
                },
            }
            let arg_type = match sig_of(self.kind(q + 2)) {
                Some(t) => t,
                None => {
                    return Err(ParseError::UnknownType(q + 2));
                },
            };
            proof {
                assert(params_view(args@.push(Arg { name: arg_name, arg_type })) =~= params_view(
                    args@,
                ).push((arg_name@, arg_type)));
            }
            args.push(Arg { name: arg_name, arg_type });
            match self.kind(q + 3) {
                Some(TokenType::Coma) => {
                    self.pos = q + 4;
                },
                _ => {
                    self.pos = q + 3;
                    break;
                },
            }
        }
        let ghost ps = params_view(args@);
        let ghost q = self.pos as int;
        match self.eat(TokenType::RParen) {
            Ok(()) => {},
            Err(x) => {
                return Err(x);
            },
        }
        let mut k: usize = 0;
        while k < args.len()
            invariant
                self.wf(),
                self.tokens_clone@ == old(self).tokens_clone@,
                self.warnings@ == st0.warnings,
                p == old(self).pos,
                st0 == old(self).state(),
                toks == self.toks(),
                is_kind(toks, p + 1, TokenType::ID),
                is_kind(toks, p + 2, TokenType::LParen),
                params_from(toks, p + 3, Seq::empty()) == Ok::<(Seq<(Seq<char>, Type)>, int), ParseError>((ps, q)),
                is_kind(toks, q, TokenType::RParen),
                self.pos as int == q + 1,
                ps == params_view(args@),
                k <= args@.len(),
                self.variable_types@ == with_params(st0.types, ps, k as nat),
            decreases args.len() - k,
        {
            self.variable_types.insert(args[k].name.clone(), args[k].arg_type);
            k += 1;
        }
        match self.eat(TokenType::RetOp) {
            Ok(()) => {},
            Err(x) => {
                return Err(x);
            },
        }
        let rt = match sig_of(self.kind(self.pos)) {
            Some(t) => t,
            None => {
                return Err(ParseError::UnknownType(self.pos));
            },
        };
        self.pos = self.pos + 1;
        match self.kind(self.pos) {
            Some(TokenType::LBracket) => {},
            _ => {
                return Err(ParseError::Unexpected(self.pos, TokenType::LBracket));
            },
        }
        let scope = match self.parse_scope() {
            Ok(sc) => sc,
            Err(x) => {
                return Err(x);
            },
        };
        Ok(Node::FunctionNode(functionNode::new(name, args, scope, rt)))
    }

    /// Takes a new token sequence and puts the cursor at its start; the type table and the
    /// warnings stay.
    pub fn set_tokens(&mut self, tokens: Vec<Token>)
        ensures
            final(self).wf(),
            final(self).toks() == tokens_view(tokens@),
            final(self).state() == (PState { pos: 0, ..old(self).state() }),
    {
        self.tokens_clone = tokens;
        self.pos = 0;
    }

    /// Parses a whole token sequence into statements. The type table and the warnings carry
    /// over from earlier calls.
    pub fn parse(&mut self, tokens: Vec<Token>) -> (r: Result<Vec<Node>, ParseError>)
        requires
            old(self).wf(),
        ensures
            final(self).wf(),
            final(self).toks() == tokens_view(tokens@),
            match r {
                Ok(v) => parse_all(tokens_view(tokens@), old(self).state()) == Ok::<
                    (Seq<NodeV>, PState),
                    ParseError,
                >((nodes_view(v@, v@.len()), final(self).state())),
                Err(x) => parse_all(tokens_view(tokens@), old(self).state()) == Err::<
                    (Seq<NodeV>, PState),
                    ParseError,
                >(x),
            },
    {
        self.set_tokens(tokens);
        let nodes = match self.statement_list() {
            Ok(v) => v,
            Err(x) => {
                return Err(x);
            },
        };
        if self.pos < self.tokens_clone.len() {
            return Err(ParseError::InvalidStatement(self.pos));
        }
        Ok(nodes)
    }
}

} // verus!
