use minic::ast::{BinOp, Node, ParseError, ParseErrorKind, Type, UnOp};
use minic::lexer::lex;
use minic::parser::parse;
use minic::token::Token;

fn parse_src(src: &str) -> Result<Node, ParseError> {
    let code = String::from(src);
    let mut tokens: Vec<Token> = Vec::new();
    lex(&code, &mut tokens).expect("the source must scan");
    let mut ast: Vec<Node> = Vec::new();
    match parse(&tokens, &mut ast) {
        Ok(()) => {
            assert_eq!(ast.len(), 1);
            Ok(ast.pop().unwrap())
        }
        Err(e) => {
            assert!(ast.is_empty());
            Err(e)
        }
    }
}

fn root(src: &str) -> Node {
    parse_src(src).expect("the source must parse")
}

fn perr(src: &str) -> ParseError {
    parse_src(src).expect_err("the source must not parse")
}

fn id(name: &str) -> Box<Node> {
    Box::new(Node::Id { id: String::from(name) })
}

fn var(name: &str) -> Box<Node> {
    Box::new(Node::Var { name: id(name) })
}

fn block(stmts: Vec<Node>) -> Box<Node> {
    Box::new(Node::Block { vec: stmts })
}

fn lit(n: i32) -> Box<Node> {
    Box::new(Node::IntN { n })
}

fn expr(e: Box<Node>) -> Box<Node> {
    Box::new(Node::Expr { e })
}

fn bin(l: Box<Node>, op: BinOp, r: Box<Node>) -> Box<Node> {
    Box::new(Node::BinE { exprl: l, op, exprr: r })
}

fn vardef(t: Type, name: &str) -> Box<Node> {
    Box::new(Node::VarDef { var_t: t, name: id(name) })
}

#[test]
fn empty_input_parses_to_an_empty_root_block() {
    assert_eq!(root(""), Node::Block { vec: vec![] });
}

#[test]
fn round_trip_function_definition() {
    // The initializer chains to the right: c = (a + (b)).
    let init = bin(
        vardef(Type::IntT, "c"),
        BinOp::Assignment,
        expr(bin(var("a"), BinOp::Add, expr(var("b")))),
    );
    let expected = Node::Block {
        vec: vec![Node::FuncDef {
            ret_t: Type::IntT,
            name: id("add"),
            args: block(vec![
                Node::VarDef { var_t: Type::IntT, name: id("a") },
                Node::VarDef { var_t: Type::IntT, name: id("b") },
            ]),
            block: block(vec![Node::Expr { e: init }]),
        }],
    };
    assert_eq!(root("int add(int a, int b) { int c = a + b; }"), expected);
}

#[test]
fn return_is_not_a_statement() {
    // `return` scans to its own keyword token, but the statement grammar has
    // no production for it: it is rejected as an unexpected token.
    let e = perr("int add(int a, int b) { int c = a + b; return c; }");
    assert_eq!(e.kind, ParseErrorKind::UnexpectedToken);
    assert_eq!(e.pos, 17);
}

#[test]
fn no_operator_precedence_add_then_mul() {
    // 1 + 2 * 3 groups to the right: 1 + (2 * 3).
    let rhs = expr(bin(lit(2), BinOp::Mul, expr(lit(3))));
    let sum = expr(bin(lit(1), BinOp::Add, rhs));
    let init = bin(vardef(Type::IntT, "x"), BinOp::Assignment, sum);
    let expected = Node::Block {
        vec: vec![Node::FuncDef {
            ret_t: Type::IntT,
            name: id("f"),
            args: block(vec![]),
            block: block(vec![Node::Expr { e: init }]),
        }],
    };
    assert_eq!(root("int f() { int x = 1 + 2 * 3 ; }"), expected);
}

#[test]
fn no_operator_precedence_mul_then_add() {
    // 1 * 2 + 3 also groups to the right: 1 * (2 + 3).
    let rhs = expr(bin(lit(2), BinOp::Add, expr(lit(3))));
    let product = expr(bin(lit(1), BinOp::Mul, rhs));
    let init = bin(vardef(Type::IntT, "y"), BinOp::Assignment, product);
    let expected = Node::Block {
        vec: vec![Node::FuncDef {
            ret_t: Type::IntT,
            name: id("g"),
            args: block(vec![]),
            block: block(vec![Node::Expr { e: init }]),
        }],
    };
    assert_eq!(root("int g() { int y = 1 * 2 + 3 ; }"), expected);
}

#[test]
fn else_if_chains_as_a_nested_if() {
    let inner = Node::If {
        cond: expr(var("b")),
        block: block(vec![]),
        next: Box::new(Node::Empty),
    };
    let expected = Node::Block {
        vec: vec![Node::FuncDef {
            ret_t: Type::VoidT,
            name: id("f"),
            args: block(vec![]),
            block: block(vec![Node::If {
                cond: expr(var("a")),
                block: block(vec![]),
                next: Box::new(inner),
            }]),
        }],
    };
    assert_eq!(root("void f() { if (a) { ; } else if (b) { ; } }"), expected);
}

#[test]
fn plain_else_wraps_its_block() {
    let expected = Node::Block {
        vec: vec![Node::FuncDef {
            ret_t: Type::VoidT,
            name: id("f"),
            args: block(vec![]),
            block: block(vec![Node::If {
                cond: expr(var("a")),
                block: block(vec![]),
                next: Box::new(Node::Else { block: block(vec![]) }),
            }]),
        }],
    };
    assert_eq!(root("void f() { if (a) { ; } else { ; } }"), expected);
}

#[test]
fn missing_closing_brace_aborts_without_an_ast() {
    let code = String::from("int f() { ;");
    let mut tokens: Vec<Token> = Vec::new();
    lex(&code, &mut tokens).unwrap();
    let mut ast: Vec<Node> = Vec::new();
    let r = parse(&tokens, &mut ast);
    assert_eq!(r.unwrap_err().kind, ParseErrorKind::UnexpectedEnd);
    assert!(ast.is_empty());
}

#[test]
fn while_consumes_its_closing_brace() {
    let expected = Node::Block {
        vec: vec![Node::FuncDef {
            ret_t: Type::IntT,
            name: id("f"),
            args: block(vec![]),
            block: block(vec![
                Node::While { cond: expr(var("a")), block: block(vec![]) },
                Node::VarDef { var_t: Type::IntT, name: id("x") },
            ]),
        }],
    };
    assert_eq!(root("int f() { while (a) { ; } int x ; }"), expected);
}

#[test]
fn while_is_not_available_inside_an_if_branch() {
    let e = perr("int f() { if (a) { while (b) { ; } } }");
    assert_eq!(e.kind, ParseErrorKind::UnexpectedToken);
}

#[test]
fn nested_while_and_if() {
    let inner_if = Node::If {
        cond: expr(var("b")),
        block: block(vec![]),
        next: Box::new(Node::Empty),
    };
    let expected = Node::Block {
        vec: vec![Node::FuncDef {
            ret_t: Type::IntT,
            name: id("f"),
            args: block(vec![]),
            block: block(vec![Node::While {
                cond: expr(var("a")),
                block: block(vec![inner_if]),
            }]),
        }],
    };
    assert_eq!(root("int f() { while (a) { if (b) { ; } } }"), expected);
}

#[test]
fn void_variable_is_rejected() {
    // In a parameter list, the declaration production sees the void type.
    let e = perr("int f(void x) { }");
    assert_eq!(e.kind, ParseErrorKind::VoidVarType);
    // At a statement position, `void` starts no statement at all.
    let e = perr("int f() { void x ; }");
    assert_eq!(e.kind, ParseErrorKind::UnexpectedToken);
}

#[test]
fn declaration_without_terminator_is_rejected() {
    let e = perr("int f() { int x int y ; }");
    assert_eq!(e.kind, ParseErrorKind::MissingDeclTerminator);
}

#[test]
fn function_call_with_arguments() {
    let call = Node::FuncCall {
        name: id("g"),
        args: block(vec![
            Node::Expr { e: lit(1) },
            Node::Expr { e: var("x") },
        ]),
    };
    let expected = Node::Block {
        vec: vec![Node::FuncDef {
            ret_t: Type::IntT,
            name: id("f"),
            args: block(vec![]),
            block: block(vec![call]),
        }],
    };
    assert_eq!(root("int f() { g(1, x) ; }"), expected);
}

#[test]
fn function_call_without_arguments() {
    let call = Node::FuncCall { name: id("g"), args: block(vec![]) };
    let expected = Node::Block {
        vec: vec![Node::FuncDef {
            ret_t: Type::IntT,
            name: id("f"),
            args: block(vec![]),
            block: block(vec![call]),
        }],
    };
    assert_eq!(root("int f() { g() ; }"), expected);
}

#[test]
fn prefix_negation_statement() {
    let stmt = Node::Expr {
        e: Box::new(Node::UnE { op: UnOp::Negation, expr: var("flag") }),
    };
    let expected = Node::Block {
        vec: vec![Node::FuncDef {
            ret_t: Type::VoidT,
            name: id("f"),
            args: block(vec![]),
            block: block(vec![stmt]),
        }],
    };
    assert_eq!(root("void f() { ! flag ; }"), expected);
}

#[test]
fn top_level_junk_is_skipped() {
    let expected = Node::Block {
        vec: vec![Node::FuncDef {
            ret_t: Type::VoidT,
            name: id("f"),
            args: block(vec![]),
            block: block(vec![]),
        }],
    };
    assert_eq!(root("x ; ) void f() { } , junk"), expected);
}

#[test]
fn missing_left_parenthesis_is_rejected() {
    let e = perr("int f { }");
    assert_eq!(e.kind, ParseErrorKind::ExpectedLParen);
    assert_eq!(e.pos, 2);
}

#[test]
fn missing_right_parenthesis_is_rejected() {
    let e = perr("int f( int a { }");
    assert_eq!(e.kind, ParseErrorKind::ExpectedRParen);
}

#[test]
fn comparison_in_condition() {
    let cond = bin(var("a"), BinOp::Lesser, expr(lit(10)));
    let expected = Node::Block {
        vec: vec![Node::FuncDef {
            ret_t: Type::VoidT,
            name: id("f"),
            args: block(vec![]),
            block: block(vec![Node::While {
                cond: Box::new(Node::Expr { e: cond }),
                block: block(vec![]),
            }]),
        }],
    };
    assert_eq!(root("void f() { while (a < 10) { ; } }"), expected);
}

#[test]
fn float_literals_in_expressions() {
    let half = Box::new(Node::FloatN { lexeme: String::from("0.5") });
    let two = Box::new(Node::FloatN { lexeme: String::from("2.0") });
    let sum = expr(bin(half, BinOp::Add, expr(two)));
    let init = bin(vardef(Type::FloatT, "x"), BinOp::Assignment, sum);
    let expected = Node::Block {
        vec: vec![Node::FuncDef {
            ret_t: Type::FloatT,
            name: id("f"),
            args: block(vec![]),
            block: block(vec![Node::Expr { e: init }]),
        }],
    };
    assert_eq!(root("float f() { float x = 0.5 + 2.0 ; }"), expected);
}

#[test]
fn char_literal_is_a_terminal_expression() {
    let init = bin(
        vardef(Type::CharT, "c"),
        BinOp::Assignment,
        expr(Box::new(Node::CharN { n: b'q' })),
    );
    let expected = Node::Block {
        vec: vec![Node::FuncDef {
            ret_t: Type::VoidT,
            name: id("f"),
            args: block(vec![]),
            block: block(vec![Node::Expr { e: init }]),
        }],
    };
    assert_eq!(root("void f() { char c = 'q' ; }"), expected);
}

#[test]
fn compound_assignment_statement() {
    let stmt = Node::Expr {
        e: bin(var("x"), BinOp::UnAdd, expr(lit(1))),
    };
    let expected = Node::Block {
        vec: vec![Node::FuncDef {
            ret_t: Type::VoidT,
            name: id("f"),
            args: block(vec![]),
            block: block(vec![stmt]),
        }],
    };
    assert_eq!(root("void f() { x += 1 ; }"), expected);
}

#[test]
fn prefix_increment_statement() {
    let stmt = Node::Expr {
        e: Box::new(Node::UnE { op: UnOp::Inc, expr: var("i") }),
    };
    let expected = Node::Block {
        vec: vec![Node::FuncDef {
            ret_t: Type::VoidT,
            name: id("f"),
            args: block(vec![]),
            block: block(vec![stmt]),
        }],
    };
    assert_eq!(root("void f() { ++ i ; }"), expected);
}

#[test]
fn equality_condition() {
    let cond = Node::Expr {
        e: bin(var("a"), BinOp::Equal, expr(var("b"))),
    };
    let expected = Node::Block {
        vec: vec![Node::FuncDef {
            ret_t: Type::VoidT,
            name: id("f"),
            args: block(vec![]),
            block: block(vec![Node::If {
                cond: Box::new(cond),
                block: block(vec![]),
                next: Box::new(Node::Empty),
            }]),
        }],
    };
    assert_eq!(root("void f() { if (a == b) { ; } }"), expected);
}

#[test]
fn call_as_function_argument() {
    let inner = Node::FuncCall { name: id("h"), args: block(vec![]) };
    let call = Node::FuncCall { name: id("g"), args: block(vec![inner]) };
    let expected = Node::Block {
        vec: vec![Node::FuncDef {
            ret_t: Type::VoidT,
            name: id("f"),
            args: block(vec![]),
            block: block(vec![call]),
        }],
    };
    assert_eq!(root("void f() { g(h()) ; }"), expected);
}
