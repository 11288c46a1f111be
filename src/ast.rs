use vstd::prelude::*;
use std::rc::Rc;

verus! {

/// Static type tag of a declaration, parameter or return value.
#[derive(Debug, Clone, Copy, PartialEq, Eq, Structural)]
pub enum Type {
    Int,
    Float,
    String,
    Bool,
    Char,
    Long,
    Short,
    Void,
}

impl View for Type {
    type V = Type;

    open spec fn view(&self) -> Type {
        *self
    }
}

/// A typed function parameter.
#[derive(Debug, Clone)]
pub struct Arg {
    pub name: String,
    pub arg_type: Type,
}

/// A narrow integer literal.
#[derive(Debug, Clone, Copy)]
#[allow(non_camel_case_types)]
pub struct numberNode {
    pub value: i32,
}

impl numberNode {
    pub fn new(value: i32) -> (r: Self)
        ensures
            r.value == value,
    {
        Self { value }
    }

    pub fn get_value(&self) -> (r: i32)
        ensures
            r == self.value,
    {
        self.value
    }
}

/// A reference to a variable, with the type recorded for it at parse time.
#[derive(Debug, Clone)]
#[allow(non_camel_case_types)]
pub struct variableNode {
    pub name: String,
    pub typeS: Type,
}

impl variableNode {
    pub fn new(name: String, typeS: Type) -> (r: Self)
        ensures
            r.name == name,
            r.typeS == typeS,
    {
        Self { name, typeS }
    }

    pub fn get_name(&self) -> (r: String)
        ensures
            r == self.name,
    {
        self.name.clone()
    }

    pub fn get_type(&self) -> (r: Type)
        ensures
            r == self.typeS,
    {
        self.typeS
    }
}

/// An arithmetic operation on two operands.
#[derive(Debug)]
#[allow(non_camel_case_types)]
pub struct binOpNode {
    pub left: expressionNode,
    pub right: expressionNode,
    pub op: char,
}

impl binOpNode {
    pub fn new(left: expressionNode, right: expressionNode, op: char) -> (r: Self)
        ensures
            r == (binOpNode { left, right, op }),
    {
        Self { left, right, op }
    }

    pub fn get_left(&self) -> (r: &expressionNode)
        ensures
            *r == self.left,
    {
        &self.left
    }

    pub fn get_right(&self) -> (r: &expressionNode)
        ensures
            *r == self.right,
    {
        &self.right
    }

    pub fn get_op(&self) -> (r: char)
        ensures
            r == self.op,
    {
        self.op
    }
}

/// A call of a function by name.
#[derive(Debug)]
#[allow(non_camel_case_types)]
pub struct callNode {
    pub function_name: String,
    pub args: Vec<expressionNode>,
}

impl callNode {
    pub fn new(function_name: String, args: Vec<expressionNode>) -> (r: Self)
        ensures
            r.function_name == function_name,
            r.args == args,
    {
        Self { function_name, args }
    }

    pub fn get_function_name(&self) -> (r: String)
        ensures
            r == self.function_name,
    {
        self.function_name.clone()
    }

    pub fn get_arguments(&self) -> (r: &Vec<expressionNode>)
        ensures
            *r == self.args,
    {
        &self.args
    }

    pub fn get_argument(&self, index: usize) -> (r: Option<&expressionNode>)
        ensures
            index < self.args@.len() ==> r == Some(&self.args@[index as int]),
            index >= self.args@.len() ==> r is None,
    {
        if index < self.args.len() {
            Some(&self.args[index])
        } else {
            None
        }
    }

    pub fn get_arguments_len(&self) -> (r: usize)
        ensures
            r == self.args@.len(),
    {
        self.args.len()
    }
}

/// An expression of the language.
#[derive(Debug)]
#[allow(non_camel_case_types)]
pub enum expressionNode {
    Number(numberNode),
    LongExpression(i128),
    /// A float literal; the language gives every float the value zero.
    FloatExpression,
    Variable(variableNode),
    BinOp(Box<binOpNode>),
    StringLiteral(String),
    /// The zero value of a type.
    DefaultValue(Type),
    FunctionCall(callNode),
    CharLiteral(char),
    Bool(bool),
}

/// Binding of a value to a variable: a first declaration or a reassignment.
#[derive(Debug)]
#[allow(non_camel_case_types)]
pub struct assignmentNode {
    pub left: variableNode,
    pub right: expressionNode,
}

impl assignmentNode {
    pub fn new(left: variableNode, right: expressionNode) -> (r: Self)
        ensures
            r.left == left,
            r.right == right,
    {
        Self { left, right }
    }

    pub fn get_variable(&self) -> (r: &variableNode)
        ensures
            *r == self.left,
    {
        &self.left
    }

    pub fn get_expression(&self) -> (r: &expressionNode)
        ensures
            *r == self.right,
    {
        &self.right
    }
}

/// A statement that prints the value of its expression on a line of its own.
#[derive(Debug)]
#[allow(non_camel_case_types)]
pub struct echoNode {
    pub value: expressionNode,
}

impl echoNode {
    pub fn new(value: expressionNode) -> (r: Self)
        ensures
            r.value == value,
    {
        Self { value }
    }
}

/// A `return` statement.
#[derive(Debug)]
#[allow(non_camel_case_types)]
pub struct returnNode {
    pub return_value: expressionNode,
}

impl returnNode {
    pub fn new(expr: expressionNode) -> (r: Self)
        ensures
            r.return_value == expr,
    {
        Self { return_value: expr }
    }

    pub fn get_return_value(&self) -> (r: &expressionNode)
        ensures
            *r == self.return_value,
    {
        &self.return_value
    }
}

/// The statements of a function body.
#[derive(Debug)]
#[allow(non_camel_case_types)]
pub struct scopeNode {
    pub nodes: Vec<Node>,
}

impl scopeNode {
    pub fn new(nodes: Vec<Node>) -> (r: Self)
        ensures
            r.nodes == nodes,
    {
        Self { nodes }
    }

    pub fn get_nodes(&self) -> (r: &Vec<Node>)
        ensures
            *r == self.nodes,
    {
        &self.nodes
    }

    pub fn get_nodes_len(&self) -> (r: usize)
        ensures
            r == self.nodes@.len(),
    {
        self.nodes.len()
    }

    pub fn get_node_by_index(&self, index: usize) -> (r: &Node)
        requires
            index < self.nodes@.len(),
        ensures
            *r == self.nodes@[index as int],
    {
        &self.nodes[index]
    }
}

/// A function declaration as parsed; its body is shared with the definition it registers.
#[derive(Debug)]
#[allow(non_camel_case_types)]
pub struct functionNode {
    pub name: String,
    pub args: Vec<Arg>,
    pub scope: Rc<scopeNode>,
    pub return_value: Type,
}

impl functionNode {
    pub fn new(name: String, args: Vec<Arg>, scope: scopeNode, return_value: Type) -> (r: Self)
        ensures
            r.name == name,
            r.args == args,
            *r.scope == scope,
            r.return_value == return_value,
    {
        Self { name, args, scope: Rc::new(scope), return_value }
    }

    pub fn get_name(&self) -> (r: String)
        ensures
            r == self.name,
    {
        self.name.clone()
    }

    pub fn get_args(&self) -> (r: &Vec<Arg>)
        ensures
            *r == self.args,
    {
        &self.args
    }

    pub fn get_scope(&self) -> (r: &scopeNode)
        ensures
            *r == *self.scope,
    {
        &self.scope
    }

    pub fn get_ret_val(&self) -> (r: Type)
        ensures
            r == self.return_value,
    {
        self.return_value
    }
}

/// A statement of the language.
#[derive(Debug)]
pub enum Node {
    Assignment(assignmentNode),
    EchoNode(echoNode),
    ExpressionNode(expressionNode),
    FunctionNode(functionNode),
    ReturnNode(returnNode),
}

/// An expression as a mathematical tree.
pub ghost enum ExprV {
    Number(i32),
    Long(i128),
    Float,
    Var(Seq<char>, Type),
    BinOp(Box<ExprV>, Box<ExprV>, char),
    Str(Seq<char>),
    Default(Type),
    Call(Seq<char>, Seq<ExprV>),
    Char(char),
    Bool(bool),
}

/// A statement as a mathematical tree.
pub ghost enum NodeV {
    Assign(Seq<char>, Type, ExprV),
    Echo(ExprV),
    Expr(ExprV),
    Func(Seq<char>, Seq<(Seq<char>, Type)>, Seq<NodeV>, Type),
    Return(ExprV),
}

pub open spec fn expr_view(e: expressionNode) -> ExprV
    decreases e, 0nat,
{
    match e {
        expressionNode::Number(n) => ExprV::Number(n.value),
        expressionNode::LongExpression(v) => ExprV::Long(v),
        expressionNode::FloatExpression => ExprV::Float,
        expressionNode::Variable(v) => ExprV::Var(v.name@, v.typeS),
        expressionNode::BinOp(b) => ExprV::BinOp(
            Box::new(expr_view(b.left)),
            Box::new(expr_view(b.right)),
            b.op,
        ),
        expressionNode::StringLiteral(s) => ExprV::Str(s@),
        expressionNode::DefaultValue(t) => ExprV::Default(t),
        expressionNode::FunctionCall(c) => ExprV::Call(
            c.function_name@,
            exprs_view(c.args@, c.args@.len()),
        ),
        expressionNode::CharLiteral(c) => ExprV::Char(c),
        expressionNode::Bool(b) => ExprV::Bool(b),
    }
}

/// The views of the first `n` expressions.
pub open spec fn exprs_view(s: Seq<expressionNode>, n: nat) -> Seq<ExprV>
    decreases s, n,
{
    if n == 0 || n > s.len() {
        Seq::empty()
    } else {
        exprs_view(s, (n - 1) as nat).push(expr_view(s[n - 1]))
    }
}

pub open spec fn params_view(s: Seq<Arg>) -> Seq<(Seq<char>, Type)> {
    s.map_values(|a: Arg| (a.name@, a.arg_type))
}

pub open spec fn node_view(n: Node) -> NodeV
    decreases n, 0nat,
{
    match n {
        Node::Assignment(a) => NodeV::Assign(a.left.name@, a.left.typeS, expr_view(a.right)),
        Node::EchoNode(e) => NodeV::Echo(expr_view(e.value)),
        Node::ExpressionNode(e) => NodeV::Expr(expr_view(e)),
        Node::FunctionNode(f) => NodeV::Func(
            f.name@,
            params_view(f.args@),
            nodes_view(f.scope.nodes@, f.scope.nodes@.len()),
            f.return_value,
        ),
        Node::ReturnNode(r) => NodeV::Return(expr_view(r.return_value)),
    }
}

/// The views of the first `n` statements.
pub open spec fn nodes_view(s: Seq<Node>, n: nat) -> Seq<NodeV>
    decreases s, n,
{
    if n == 0 || n > s.len() {
        Seq::empty()
    } else {
        nodes_view(s, (n - 1) as nat).push(node_view(s[n - 1]))
    }
}

impl View for expressionNode {
    type V = ExprV;

    open spec fn view(&self) -> ExprV {
        expr_view(*self)
    }
}

impl View for Node {
    type V = NodeV;

    open spec fn view(&self) -> NodeV {
        node_view(*self)
    }
}

pub proof fn lemma_char_view(c: char)
    ensures
        expr_view(expressionNode::CharLiteral(c)) == ExprV::Char(c),
{
}

pub proof fn lemma_exprs_view_prefix(s: Seq<expressionNode>, x: expressionNode, n: nat)
    requires
        n <= s.len(),
    ensures
        exprs_view(s.push(x), n) == exprs_view(s, n),
    decreases n,
{
    if n > 0 {
        lemma_exprs_view_prefix(s, x, (n - 1) as nat);
    }
}

/// Viewing a sequence after a push extends its view by the view of the new element.
pub proof fn lemma_exprs_view_push(s: Seq<expressionNode>, x: expressionNode)
    ensures
        exprs_view(s.push(x), s.len() + 1) == exprs_view(s, s.len()).push(expr_view(x)),
{
    lemma_exprs_view_prefix(s, x, s.len());
}

pub proof fn lemma_nodes_view_prefix(s: Seq<Node>, x: Node, n: nat)
    requires
        n <= s.len(),
    ensures
        nodes_view(s.push(x), n) == nodes_view(s, n),
    decreases n,
{
    if n > 0 {
        lemma_nodes_view_prefix(s, x, (n - 1) as nat);
    }
}

/// Viewing a sequence after a push extends its view by the view of the new element.
pub proof fn lemma_nodes_view_push(s: Seq<Node>, x: Node)
    ensures
        nodes_view(s.push(x), s.len() + 1) == nodes_view(s, s.len()).push(node_view(x)),
{
    lemma_nodes_view_prefix(s, x, s.len());
}

} // verus!
