use wnlang::ast::{expressionNode, Node, Type};
use wnlang::interpreter::{mul_str, Interpritator, State};
use wnlang::lexer::{LexError, Lexer};
use wnlang::parser::{ParseError, Parser};
use wnlang::semantics::RuntimeError;
use wnlang::token::{Token, TokenType};
use wnlang::value::Object;

#[derive(Debug)]
enum Failure {
    Lex(LexError),
    Parse(ParseError),
    Run(RuntimeError),
}

fn parse_source(src: &str) -> Result<Vec<Node>, Failure> {
    let mut lexer = Lexer::new();
    let tokens = lexer.token_nize(src.to_string()).map_err(Failure::Lex)?;
    let mut parser = Parser::new();
    parser.parse(tokens).map_err(Failure::Parse)
}

fn run_with_input(src: &str, lines: &[&str]) -> (Result<(), Failure>, String) {
    let mut int = Interpritator::new();
    for l in lines {
        int.push_input(l.to_string());
    }
    let nodes = match parse_source(src) {
        Ok(n) => n,
        Err(e) => return (Err(e), String::new()),
    };
    for node in nodes {
        if let Err(e) = int.execute(node) {
            let out: String = int.take_output().into_iter().collect();
            return (Err(Failure::Run(e)), out);
        }
    }
    let out: String = int.take_output().into_iter().collect();
    (Ok(()), out)
}

fn run(src: &str) -> (Result<(), Failure>, String) {
    run_with_input(src, &[])
}

fn tokens_of(src: &str) -> Vec<(TokenType, String)> {
    let mut lexer = Lexer::new();
    lexer
        .token_nize(src.to_string())
        .unwrap()
        .iter()
        .map(|t| (t.get_type(), t.get_value()))
        .collect()
}

fn single_expression(src: &str) -> expressionNode {
    let mut nodes = parse_source(src).unwrap();
    assert_eq!(nodes.len(), 1);
    match nodes.remove(0) {
        Node::ExpressionNode(e) => e,
        other => panic!("not an expression statement: {:?}", other),
    }
}

#[test]
fn literal_3600_is_narrow() {
    assert!(matches!(single_expression("3600"), expressionNode::Number(n) if n.get_value() == 3600));
}

#[test]
fn literal_3601_is_wide() {
    assert!(matches!(single_expression("3601"), expressionNode::LongExpression(3601)));
}

#[test]
fn literal_zero_is_narrow() {
    assert!(matches!(single_expression("0"), expressionNode::Number(n) if n.get_value() == 0));
}

#[test]
fn literal_too_large_is_rejected() {
    let r = parse_source("170141183460469231731687303715884105728");
    assert!(matches!(r, Err(Failure::Parse(ParseError::InvalidNumber(0)))));
}

#[test]
fn largest_wide_literal_is_accepted() {
    let e = single_expression("170141183460469231731687303715884105727");
    assert!(matches!(e, expressionNode::LongExpression(v) if v == i128::MAX));
}

#[test]
fn string_repetition() {
    let (r, out) = run("println(\"ab\" * 3)");
    assert!(r.is_ok());
    assert_eq!(out, "ababab \n");
}

#[test]
fn string_repetition_zero_times() {
    let (r, out) = run("s: string = \"x\" * 0\nprintln(s)\nprintln(\"[\" + s + \"]\")");
    assert!(r.is_ok());
    assert_eq!(out, " \n[] \n");
}

#[test]
fn mul_str_direct() {
    assert_eq!(mul_str(&"ab".to_string(), 3), "ababab");
    assert_eq!(mul_str(&"x".to_string(), 0), "");
}

#[test]
fn negative_repetition_fails() {
    let (r, _) = run("println(\"ab\" * (0 - 2))");
    assert!(matches!(r, Err(Failure::Run(RuntimeError::NegativeRepeat))));
}

#[test]
fn division_by_zero_literal() {
    let (r, out) = run("println(7 / 0)");
    assert!(matches!(r, Err(Failure::Run(RuntimeError::DivisionByZero))));
    assert_eq!(out, "");
}

#[test]
fn division_by_zero_variable() {
    let (r, _) = run("z: int = 0\nx: int = 12 / z");
    assert!(matches!(r, Err(Failure::Run(RuntimeError::DivisionByZero))));
}

#[test]
fn integer_arithmetic_and_precedence() {
    let (r, out) = run("println(2 + 3 * 4, (2 + 3) * 4, 7 / 2, 0 - 7 / 2, 10 - 4 - 3)");
    assert!(r.is_ok());
    assert_eq!(out, "14 20 3 -3 3 \n");
}

#[test]
fn integer_overflow_fails() {
    let (r, _) = run("x: int = 3000 * 3000 * 3000");
    assert!(matches!(r, Err(Failure::Run(RuntimeError::Overflow('*')))));
}

#[test]
fn identity_function_returns_its_argument() {
    let (r, out) = run("fn id(n: int) -> int { return n; }\nprintln(id(5))");
    assert!(r.is_ok());
    assert_eq!(out, "5 \n");
}

#[test]
fn identity_function_value_is_int() {
    let nodes = parse_source("fn id(n: int) -> int { return n; }").unwrap();
    let mut int = Interpritator::new();
    for n in nodes {
        assert!(matches!(int.execute(n), Ok(State::Continue)));
    }
    let call = single_expression("id(5)");
    assert!(matches!(int.evaluate(&call), Ok(Object::Int(5))));
}

#[test]
fn undeclared_function_is_void() {
    let call = single_expression("ghost(1)");
    let mut int = Interpritator::new();
    assert!(matches!(int.evaluate(&call), Ok(Object::Void)));
    let (r, out) = run("println(ghost(1))");
    assert!(r.is_ok());
    assert_eq!(out, "void \n");
}

#[test]
fn callee_cannot_see_caller_variables() {
    let src = "secret: int = 42\nfn peek(n: int) -> int { return secret; }\nprintln(peek(1))";
    let (r, _) = run(src);
    match r {
        Err(Failure::Run(RuntimeError::UndefinedVariable(name))) => assert_eq!(name, "secret"),
        other => panic!("unexpected outcome {:?}", other),
    }
}

#[test]
fn caller_variables_restored_after_call() {
    let src = "x: int = 1\nfn f(x: int) -> int { x = x + 10; return x; }\nprintln(f(5), x)";
    let (r, out) = run(src);
    assert!(r.is_ok());
    assert_eq!(out, "15 1 \n");
}

#[test]
fn println_round_trip() {
    let (r, out) = run("println(\"a\" + \"b\")");
    assert!(r.is_ok());
    assert_eq!(out, "ab \n");
}

#[test]
fn print_puts_space_after_each_argument() {
    let (r, out) = run("print(1, \"x\", true)\nprint(2)");
    assert!(r.is_ok());
    assert_eq!(out, "1 x true 2 ");
}

#[test]
fn redeclaration_changes_reassignment_type() {
    let mut lexer = Lexer::new();
    let tokens = lexer
        .token_nize("x: int = 1\nx: string = \"a\"\nx = \"b\"\nx = 5".to_string())
        .unwrap();
    let mut parser = Parser::new();
    let nodes = parser.parse(tokens).unwrap();
    assert_eq!(nodes.len(), 4);
    match &nodes[2] {
        Node::Assignment(a) => assert_eq!(a.get_variable().get_type(), Type::String),
        other => panic!("not an assignment: {:?}", other),
    }
    match &nodes[3] {
        Node::Assignment(a) => assert_eq!(a.get_variable().get_type(), Type::String),
        other => panic!("not an assignment: {:?}", other),
    }
    // `x = 5` is the only assignment whose value does not fit; it starts at token 13.
    assert_eq!(parser.warnings(), &vec![13usize]);
}

#[test]
fn declaration_without_value_gets_default() {
    let (r, out) = run("n: int\ns: string\nb: bool\nprintln(n, s, b)");
    assert!(r.is_ok());
    assert_eq!(out, "0  false \n");
}

#[test]
fn reassignment_of_undeclared_variable_fails() {
    let r = parse_source("y = 3");
    assert!(matches!(r, Err(Failure::Parse(ParseError::UndeclaredVariable(0)))));
}

#[test]
fn use_of_undeclared_variable_fails_at_parse_time() {
    let r = parse_source("println(nope)");
    assert!(matches!(r, Err(Failure::Parse(ParseError::UndeclaredVariable(2)))));
}

#[test]
fn unknown_declaration_type_fails() {
    let r = parse_source("x: void");
    assert!(matches!(r, Err(Failure::Parse(ParseError::UnknownType(2)))));
}

#[test]
fn identifier_alone_is_invalid_statement() {
    let r = parse_source("x: int\nx 1");
    assert!(matches!(r, Err(Failure::Parse(ParseError::InvalidStatement(3)))));
}

#[test]
fn missing_parenthesis_is_unexpected() {
    let r = parse_source("println((1 + 2)");
    assert!(matches!(r, Err(Failure::Parse(ParseError::Unexpected(7, TokenType::RParen)))));
}

#[test]
fn operator_without_operand_fails() {
    let r = parse_source("1 +");
    assert!(matches!(r, Err(Failure::Parse(ParseError::ExpectedExpression(2)))));
}

#[test]
fn function_with_bad_parameter_type_fails() {
    let r = parse_source("fn f(a: char) -> int { return 1; }");
    assert!(matches!(r, Err(Failure::Parse(ParseError::UnknownType(5)))));
}

#[test]
fn function_without_arrow_fails() {
    let r = parse_source("fn f() int { return 1; }");
    assert!(matches!(r, Err(Failure::Parse(ParseError::Unexpected(4, TokenType::RetOp)))));
}

#[test]
fn function_without_closing_brace_fails() {
    let r = parse_source("fn f() -> int { return 1;");
    assert!(matches!(r, Err(Failure::Parse(ParseError::Unexpected(10, TokenType::RBracket)))));
}

#[test]
fn empty_char_token_is_rejected() {
    let mut parser = Parser::new();
    let r = parser.parse(vec![Token::new(String::new(), TokenType::CharLiteral)]);
    assert!(matches!(r, Err(ParseError::EmptyChar(0))));
}

#[test]
fn argument_type_mismatch_fails() {
    let (r, _) = run("fn f(n: int) -> int { return n; }\nf(\"s\")");
    assert!(matches!(r, Err(Failure::Run(RuntimeError::ArgumentMismatch(ref n))) if n == "f"));
}

#[test]
fn argument_count_mismatch_fails() {
    let (r, _) = run("fn f(n: int) -> int { return n; }\nf(1, 2)");
    assert!(matches!(r, Err(Failure::Run(RuntimeError::ArgumentCount(ref n))) if n == "f"));
}

#[test]
fn variable_argument_checked_by_declared_type() {
    let (r, out) = run("s: string = \"hi\"\nfn f(t: string) -> string { return t + \"!\"; }\nprintln(f(s))");
    assert!(r.is_ok());
    assert_eq!(out, "hi! \n");
    let (r, _) = run("s: string = \"hi\"\nfn g(t: int) -> int { return t; }\ng(s)");
    assert!(matches!(r, Err(Failure::Run(RuntimeError::ArgumentMismatch(_)))));
}

#[test]
fn wrong_return_type_fails() {
    let (r, _) = run("fn f() -> int { return \"s\"; }\nf()");
    assert!(matches!(r, Err(Failure::Run(RuntimeError::WrongReturnType(ref n))) if n == "f"));
}

#[test]
fn function_without_return_yields_void() {
    let (r, out) = run("fn f() -> void { println(\"in\"); }\nprintln(f())");
    assert!(r.is_ok());
    assert_eq!(out, "in \nvoid \n");
}

#[test]
fn missing_return_in_int_function_fails() {
    let (r, _) = run("fn f() -> int { x: int = 1 }\nf()");
    assert!(matches!(r, Err(Failure::Run(RuntimeError::WrongReturnType(_)))));
}

#[test]
fn unbounded_recursion_is_too_deep() {
    let (r, _) = run("fn f(n: int) -> int { return f(n + 1); }\nf(0)");
    assert!(matches!(r, Err(Failure::Run(RuntimeError::TooDeep))));
}

#[test]
fn recursion_of_moderate_depth_succeeds() {
    let src = "fn down(n: int) -> int { return n; }\nfn two(n: int) -> int { return down(n) + down(n); }\nprintln(two(21))";
    let (r, out) = run(src);
    assert!(r.is_ok());
    assert_eq!(out, "42 \n");
}

#[test]
fn unsupported_operand_combination_fails() {
    let (r, _) = run("println(1 - \"a\")");
    assert!(matches!(
        r,
        Err(Failure::Run(RuntimeError::UnsupportedOperation(Type::Int, Type::String, '-')))
    ));
    let (r, _) = run("println(\"a\" - \"b\")");
    assert!(matches!(
        r,
        Err(Failure::Run(RuntimeError::UnsupportedOperation(Type::String, Type::String, '-')))
    ));
    let (r, _) = run("println(\"a\" / 2)");
    assert!(matches!(
        r,
        Err(Failure::Run(RuntimeError::UnsupportedOperation(Type::String, Type::Int, '/')))
    ));
}

#[test]
fn scan_reads_queued_line() {
    let (r, out) = run_with_input("name: string = scan()\nprintln(\"hi\", name)", &["bob"]);
    assert!(r.is_ok());
    assert_eq!(out, "hi bob \n");
}

#[test]
fn scan_without_input_asks_for_it() {
    let (r, _) = run("name: string = scan()");
    assert!(matches!(r, Err(Failure::Run(RuntimeError::InputNeeded))));
}

#[test]
fn quit_stops_the_run() {
    let (r, out) = run("println(1)\nquit()\nprintln(2)");
    assert!(matches!(r, Err(Failure::Run(RuntimeError::Quit))));
    assert_eq!(out, "1 \n");
}

#[test]
fn display_forms() {
    let (r, out) = run("println(true, false, 'c', 1.5, 5000, 0 - 12)");
    assert!(r.is_ok());
    assert_eq!(out, "true false c 0 5000 -12 \n");
    assert_eq!(Object::Long(i128::MIN).to_text(), "-170141183460469231731687303715884105728");
    assert_eq!(Object::Short(-8).to_text(), "-8");
    assert_eq!(Object::Void.to_text(), "void");
    assert_eq!(Object::String("héllo".to_string()).to_text(), "héllo");
}

#[test]
fn object_accessors() {
    let o = Object::Int(3);
    assert_eq!(o.get_type(), Type::Int);
    assert_eq!(o.as_int(), Some(3));
    assert_eq!(o.as_string(), None);
    assert_eq!(Object::String("s".to_string()).as_string(), Some("s".to_string()));
    assert_eq!(Object::Bool(true).as_bool(), Some(true));
    assert_eq!(Object::Char('q').as_char(), Some('q'));
    assert_eq!(Object::Long(9).as_long(), Some(9));
    assert_eq!(Object::Short(2).as_short(), Some(2));
}

#[test]
fn tokenize_declaration_and_arrow() {
    let toks = tokens_of("fn f(a: int) -> int { return a; }");
    let kinds: Vec<TokenType> = toks.iter().map(|t| t.0).collect();
    assert_eq!(
        kinds,
        vec![
            TokenType::Fn,
            TokenType::ID,
            TokenType::LParen,
            TokenType::ID,
            TokenType::Colon,
            TokenType::IntType,
            TokenType::RParen,
            TokenType::RetOp,
            TokenType::IntType,
            TokenType::LBracket,
            TokenType::Return,
            TokenType::ID,
            TokenType::SemiColon,
            TokenType::RBracket,
        ]
    );
    assert_eq!(toks[7].1, "->");
    assert_eq!(toks[1].1, "f");
}

#[test]
fn tokenize_literals() {
    let toks = tokens_of("\"hi there\" 'x' '\\n' 12 3.25 abc9 while");
    assert_eq!(toks[0], (TokenType::StringLiteral, "hi there".to_string()));
    assert_eq!(toks[1], (TokenType::CharLiteral, "x".to_string()));
    assert_eq!(toks[2], (TokenType::CharLiteral, "\n".to_string()));
    assert_eq!(toks[3], (TokenType::IntLiteral, "12".to_string()));
    assert_eq!(toks[4], (TokenType::FloatLiteral, "3.25".to_string()));
    assert_eq!(toks[5], (TokenType::ID, "abc9".to_string()));
    assert_eq!(toks[6], (TokenType::While, "while".to_string()));
}

#[test]
fn tokenize_unicode_identifier() {
    let toks = tokens_of("имя");
    assert_eq!(toks, vec![(TokenType::ID, "имя".to_string())]);
}

#[test]
fn tokenize_empty_source() {
    assert!(tokens_of("").is_empty());
    assert!(tokens_of("  \n\t # ").is_empty());
}

#[test]
fn unknown_characters_are_skipped_and_kept() {
    let mut lexer = Lexer::new();
    let toks = lexer.token_nize("1 @ 2 $".to_string()).unwrap();
    assert_eq!(toks.len(), 2);
    assert_eq!(lexer.skipped(), &vec!['@', '$']);
}

#[test]
fn carriage_returns_are_whitespace() {
    let mut lexer = Lexer::new();
    let toks = lexer.token_nize("x: int = 1\r\nprintln(x)\r\n".to_string()).unwrap();
    assert_eq!(toks.len(), 9);
    assert!(lexer.skipped().is_empty());
}

#[test]
fn stray_greater_than_is_reported() {
    let mut lexer = Lexer::new();
    let toks = lexer.token_nize("1 > 2 -> 3".to_string()).unwrap();
    let kinds: Vec<TokenType> = toks.iter().map(|t| t.get_type()).collect();
    assert_eq!(
        kinds,
        vec![TokenType::IntLiteral, TokenType::IntLiteral, TokenType::RetOp, TokenType::IntLiteral]
    );
    assert_eq!(lexer.skipped(), &vec!['>']);
}

#[test]
fn unterminated_string_fails() {
    let mut lexer = Lexer::new();
    assert_eq!(lexer.token_nize("\"abc".to_string()).unwrap_err(), LexError::UnterminatedString);
}

#[test]
fn unterminated_char_fails() {
    let mut lexer = Lexer::new();
    assert_eq!(lexer.token_nize("'ab'".to_string()).unwrap_err(), LexError::UnterminatedChar);
    assert_eq!(lexer.token_nize("'".to_string()).unwrap_err(), LexError::UnterminatedChar);
}

#[test]
fn unknown_escape_fails() {
    let mut lexer = Lexer::new();
    assert_eq!(lexer.token_nize("'\\q'".to_string()).unwrap_err(), LexError::UnknownEscape('q'));
}

#[test]
fn float_without_fraction_fails() {
    let mut lexer = Lexer::new();
    assert_eq!(lexer.token_nize("12.".to_string()).unwrap_err(), LexError::InvalidFloat);
}

#[test]
fn token_accessors() {
    let t = Token::new("+".to_string(), TokenType::Operator);
    assert_eq!(t.get_type(), TokenType::Operator);
    assert_eq!(t.get_value(), "+");
    assert_eq!(t.get_name_of_token(), "operator");
    assert_eq!(Token::new(";".to_string(), TokenType::SemiColon).get_name_of_token(), "semicolon");
    assert_eq!(Token::new("{".to_string(), TokenType::LBracket).get_name_of_token(), "error");
}

#[test]
fn echo_statement_prints_line() {
    let mut int = Interpritator::new();
    let node = Node::EchoNode(wnlang::ast::echoNode::new(expressionNode::StringLiteral(
        "hello".to_string(),
    )));
    assert!(matches!(int.execute(node), Ok(State::Continue)));
    let out: String = int.take_output().into_iter().collect();
    assert_eq!(out, "hello\n");
}

#[test]
fn top_level_return_signals_value() {
    let mut nodes = parse_source("return 3 + 4").unwrap();
    let mut int = Interpritator::new();
    assert!(matches!(int.execute(nodes.remove(0)), Ok(State::Return(Object::Int(7)))));
}

#[test]
fn assignment_binds_variable() {
    let nodes = parse_source("x: int = 6 * 7").unwrap();
    let mut int = Interpritator::new();
    for n in nodes {
        int.execute(n).unwrap();
    }
    assert!(matches!(int.get_variable(&"x".to_string()), Some(Object::Int(42))));
    assert!(int.get_variable(&"y".to_string()).is_none());
}

#[test]
fn redeclared_function_overwrites() {
    let src = "fn f() -> int { return 1; }\nfn f() -> int { return 2; }\nprintln(f())";
    let (r, out) = run(src);
    assert!(r.is_ok());
    assert_eq!(out, "2 \n");
}

#[test]
fn print_and_println_text() {
    let args = vec![Object::Int(-3), Object::String("a b".to_string()), Object::Char('z')];
    let mut out: Vec<char> = Vec::new();
    wnlang::interpreter::print(&mut out, &args);
    assert_eq!(out.iter().collect::<String>(), "-3 a b z ");
    let mut line: Vec<char> = vec!['>'];
    wnlang::interpreter::println(&mut line, &args);
    assert_eq!(line.iter().collect::<String>(), ">-3 a b z \n");
    let mut empty: Vec<char> = Vec::new();
    wnlang::interpreter::println(&mut empty, &Vec::new());
    assert_eq!(empty, vec!['\n']);
}

#[test]
fn stray_closing_brace_is_rejected() {
    let r = parse_source("println(1) } println(2)");
    assert!(matches!(r, Err(Failure::Parse(ParseError::InvalidStatement(4)))));
}

fn loaded_parser(src: &str) -> Parser {
    let mut lexer = Lexer::new();
    let mut parser = Parser::new();
    parser.set_tokens(lexer.token_nize(src.to_string()).unwrap());
    parser
}

#[test]
fn factor_literal_width_at_cursor() {
    let mut parser = loaded_parser("3600");
    assert!(matches!(parser.factor(), Ok(expressionNode::Number(n)) if n.get_value() == 3600));
    let mut parser = loaded_parser("3601 * 2");
    assert!(matches!(parser.factor(), Ok(expressionNode::LongExpression(3601))));
    assert!(matches!(parser.current(), Some(t) if t.get_value() == "*"));
}

#[test]
fn declaration_records_latest_type() {
    let mut parser = loaded_parser("x: int = 1 x: string x = \"s\"");
    assert!(matches!(parser.declaration(), Ok(Node::Assignment(a)) if a.get_variable().get_type() == Type::Int));
    match parser.declaration() {
        Ok(Node::Assignment(a)) => {
            assert_eq!(a.get_variable().get_type(), Type::String);
            assert!(matches!(a.get_expression(), expressionNode::DefaultValue(Type::String)));
        }
        other => panic!("unexpected {:?}", other),
    }
    match parser.reassignment() {
        Ok(Node::Assignment(a)) => assert_eq!(a.get_variable().get_type(), Type::String),
        other => panic!("unexpected {:?}", other),
    }
    assert!(parser.warnings().is_empty());
}

#[test]
fn reassignment_without_declaration_fails() {
    let mut parser = loaded_parser("y = 1");
    assert!(matches!(parser.reassignment(), Err(ParseError::UndeclaredVariable(0))));
}

#[test]
fn eval_expr_division_by_zero() {
    let e = single_expression("(3 * 4) / (2 - 2)");
    let mut int = Interpritator::new();
    assert!(matches!(int.eval_expr(&e, 10), Err(RuntimeError::DivisionByZero)));
    let e = single_expression("7 / 2");
    assert!(matches!(int.eval_expr(&e, 10), Ok(Object::Int(3))));
    assert!(matches!(int.eval_expr(&e, 1), Err(RuntimeError::TooDeep)));
}
