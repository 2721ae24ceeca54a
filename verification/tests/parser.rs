use rlox::ast::ast_print;
use rlox::errors::ParseError;
use rlox::expr::{Expr, ExprLiteral, ExprVar};
use rlox::parser::{parse_source, Parser};
use rlox::scanner::scan_source;
use rlox::stmt::{Stmt, StmtBlock, StmtVar, StmtWhile};
use rlox::token::{Literal, Token, TokenType};

fn parsed(source: &str) -> Vec<Stmt> {
    let (statements, errors) = parse_source(source).unwrap();
    assert_eq!(errors, Vec::<ParseError>::new());
    statements
}

/// The printed form of the one expression statement of a source.
fn expression(source: &str) -> String {
    let statements = parsed(source);
    assert_eq!(statements.len(), 1);
    match &statements[0] {
        Stmt::Expression(e) => ast_print(e),
        other => panic!("not an expression statement: {:?}", other),
    }
}

fn errors(source: &str) -> Vec<ParseError> {
    parse_source(source).unwrap().1
}

fn token(token_type: TokenType, lexeme: &str, line: usize) -> Token {
    Token::new(token_type, lexeme.to_string(), None, line)
}

#[test]
fn factors_bind_tighter_than_terms() {
    assert_eq!(expression("1 + 2 * 3;"), "(+ (1.00) (* (2.00) (3.00)))");
    assert_eq!(expression("1 * 2 + 3;"), "(+ (* (1.00) (2.00)) (3.00))");
    assert_eq!(expression("1 - 6 / 3;"), "(- (1.00) (/ (6.00) (3.00)))");
}

#[test]
fn levels_from_loosest_to_tightest() {
    assert_eq!(
        expression("a or b and c == d < e + f * !g;"),
        "(or a (and b (== c (< d (+ e (* f (! g)))))))"
    );
    assert_eq!(expression("a != b >= c;"), "(!= a (>= b c))");
    assert_eq!(expression("a > b <= c;"), "(<= (> a b) c)");
}

#[test]
fn binary_operators_associate_to_the_left() {
    assert_eq!(expression("1 - 2 - 3;"), "(- (- (1.00) (2.00)) (3.00))");
    assert_eq!(expression("8 / 4 / 2;"), "(/ (/ (8.00) (4.00)) (2.00))");
    assert_eq!(expression("a or b or c;"), "(or (or a b) c)");
    assert_eq!(expression("a == b == c;"), "(== (== a b) c)");
}

#[test]
fn and_and_or_are_logical_expressions() {
    let statements = parsed("a and b; a + b;");
    assert!(matches!(&statements[0], Stmt::Expression(Expr::Logical(_))));
    assert!(matches!(&statements[1], Stmt::Expression(Expr::Binary(_))));
}

#[test]
fn assignment_associates_to_the_right() {
    assert_eq!(expression("a = b = 1;"), "(= a (= b (1.00)))");
    assert_eq!(expression("a = 1 + 2;"), "(= a (+ (1.00) (2.00)))");
}

#[test]
fn unary_operators_nest() {
    assert_eq!(expression("!!true;"), "(! (! (true)))");
    assert_eq!(expression("--1;"), "(- (- (1.00)))");
    assert_eq!(expression("-a * b;"), "(* (- a) b)");
}

#[test]
fn groupings_and_literals() {
    assert_eq!(expression("(1 + 2) * 3;"), "(* (group (+ (1.00) (2.00))) (3.00))");
    assert_eq!(expression("nil;"), "(null)");
    assert_eq!(expression("\"text\";"), "(text)");
    assert_eq!(expression("false;"), "(false)");
}

#[test]
fn calls_take_arguments_and_chain() {
    assert_eq!(expression("f();"), "(call f)");
    assert_eq!(expression("f(1, a + b);"), "(call f (1.00) (+ a b))");
    assert_eq!(expression("f(1)(2);"), "(call (call f (1.00)) (2.00))");
    assert_eq!(expression("-f(x);"), "(- (call f x))");
    let statements = parsed("f(1,\n 2\n);");
    match &statements[0] {
        Stmt::Expression(Expr::Call(call)) => {
            assert_eq!(call.paren, token(TokenType::RightParen, ")", 3));
            assert_eq!(call.arguments.len(), 2);
        }
        other => panic!("not a call: {:?}", other),
    }
}

#[test]
fn a_call_takes_at_most_255_arguments() {
    let most = format!("f({});", vec!["1"; 255].join(", "));
    let statements = parsed(&most);
    match &statements[0] {
        Stmt::Expression(Expr::Call(call)) => assert_eq!(call.arguments.len(), 255),
        other => panic!("not a call: {:?}", other),
    }
    let more = format!("f({});", vec!["1"; 256].join(", "));
    let (statements, errors) = parse_source(&more).unwrap();
    assert_eq!(statements.len(), 0);
    assert_eq!(errors.len(), 1);
    assert!(matches!(&errors[0], ParseError::ArgumentsOverflow { token } if token.lexeme == "1"));
}

#[test]
fn a_function_has_at_most_255_parameters() {
    let names: Vec<String> = (0..256).map(|i| format!("p{}", i)).collect();
    let most = format!("fun f({}) {{}}", names[..255].join(", "));
    let statements = parsed(&most);
    match &statements[0] {
        Stmt::Function(f) => assert_eq!(f.params.len(), 255),
        other => panic!("not a function: {:?}", other),
    }
    let more = format!("fun f({}) {{}}", names.join(", "));
    let errors = errors(&more);
    assert!(
        matches!(&errors[0], ParseError::ParametersOverflow { token } if token.lexeme == "p255")
    );
}

#[test]
fn assignment_needs_a_variable_on_its_left() {
    assert_eq!(
        errors("1 = 2;"),
        vec![ParseError::InvalidAssignmentTarget { token: token(TokenType::Equal, "=", 1) }]
    );
    assert_eq!(
        errors("a + b = 2;"),
        vec![ParseError::InvalidAssignmentTarget { token: token(TokenType::Equal, "=", 1) }]
    );
    assert_eq!(
        errors("(a) = 2;"),
        vec![ParseError::InvalidAssignmentTarget { token: token(TokenType::Equal, "=", 1) }]
    );
}

#[test]
fn statements_of_each_kind() {
    let statements = parsed(
        "var a; var b = 1; print b; { a = 2; } if (a) b; else a; while (a) b; return; return a;",
    );
    assert_eq!(statements.len(), 8);
    assert_eq!(
        statements[0],
        Stmt::Var(StmtVar::new(token(TokenType::Identifier, "a", 1), None))
    );
    assert!(matches!(&statements[1], Stmt::Var(v) if v.initializer.is_some()));
    assert!(matches!(&statements[2], Stmt::Print(Expr::Var(_))));
    assert!(matches!(&statements[3], Stmt::Block(b) if b.statements.len() == 1));
    assert!(matches!(&statements[4], Stmt::If(i) if i.else_branch.is_some()));
    assert!(matches!(&statements[5], Stmt::While(_)));
    assert!(matches!(&statements[6], Stmt::Return(r) if r.value.is_none()));
    assert!(
        matches!(&statements[7], Stmt::Return(r) if r.value.is_some() && r.keyword.lexeme == "return")
    );
}

#[test]
fn else_belongs_to_the_nearest_if() {
    let statements = parsed("if (a) if (b) c; else d;");
    match &statements[0] {
        Stmt::If(outer) => {
            assert!(outer.else_branch.is_none());
            assert!(matches!(&*outer.then_branch, Stmt::If(inner) if inner.else_branch.is_some()));
        }
        other => panic!("not an if: {:?}", other),
    }
}

#[test]
fn function_declarations() {
    let statements = parsed("fun add(a, b) { return a + b; } fun none() {}");
    match &statements[0] {
        Stmt::Function(f) => {
            assert_eq!(f.name.lexeme, "add");
            let params: Vec<&str> = f.params.iter().map(|p| p.lexeme.as_str()).collect();
            assert_eq!(params, vec!["a", "b"]);
            assert_eq!(f.body.len(), 1);
        }
        other => panic!("not a function: {:?}", other),
    }
    assert!(matches!(&statements[1], Stmt::Function(f) if f.params.is_empty() && f.body.is_empty()));
}

#[test]
fn a_for_statement_is_read_as_a_while_loop() {
    let by_for = parsed("for (var i = 0; i < 3; i = i + 1) print i;");
    let by_hand = parsed("{ var i = 0; while (i < 3) { print i; i = i + 1; } }");
    assert_eq!(by_for, by_hand);
}

#[test]
fn a_for_statement_without_clauses_loops_while_true() {
    let statements = parsed("for (;;) print 1;");
    let body = parsed("print 1;").remove(0);
    assert_eq!(
        statements,
        vec![Stmt::While(StmtWhile::new(
            Expr::Literal(ExprLiteral::new(Literal::Boolean(true))),
            body
        ))]
    );
}

#[test]
fn a_for_statement_with_some_clauses() {
    let statements = parsed("for (i = 0; ; ) print i;");
    assert!(matches!(&statements[0], Stmt::Block(b)
        if b.statements.len() == 2 && matches!(&b.statements[1], Stmt::While(_))));
    let statements = parsed("for (; a; ) b;");
    assert_eq!(
        statements,
        vec![Stmt::While(StmtWhile::new(
            Expr::Var(ExprVar::new(token(TokenType::Identifier, "a", 1))),
            Stmt::Expression(Expr::Var(ExprVar::new(token(TokenType::Identifier, "b", 1))))
        ))]
    );
    let statements = parsed("for (; ; i = 1) b;");
    match &statements[0] {
        Stmt::While(w) => assert!(matches!(&*w.body, Stmt::Block(StmtBlock { statements })
            if statements.len() == 2 && matches!(&statements[1], Stmt::Expression(Expr::Assign(_))))),
        other => panic!("not a while: {:?}", other),
    }
}

#[test]
fn an_error_names_the_token_and_what_was_expected() {
    assert_eq!(
        errors("print 1"),
        vec![ParseError::ParseEOF { token: token(TokenType::EOF, " ", 1) }]
    );
    assert_eq!(
        errors("print 1 2;"),
        vec![ParseError::ParseFail {
            token: Token::new(
                TokenType::Number,
                "2".to_string(),
                Some(Literal::Number(rlox::number::Number::from_units(2_000_000))),
                1
            ),
            message: "Expect ';' after value.".to_string(),
        }]
    );
    assert_eq!(
        errors("print ;"),
        vec![ParseError::ParseFail {
            token: token(TokenType::Semicolon, ";", 1),
            message: "Expect expression.".to_string(),
        }]
    );
    assert_eq!(
        errors("(1 + 2;"),
        vec![ParseError::ParseFail {
            token: token(TokenType::Semicolon, ";", 1),
            message: "Expect ')' after expression.".to_string(),
        }]
    );
}

#[test]
fn messages_of_statement_errors() {
    let message = |source: &str| match &errors(source)[0] {
        ParseError::ParseFail { message, .. } => message.clone(),
        other => panic!("not a failure: {:?}", other),
    };
    assert_eq!(message("var 1;"), "Expect variable name.");
    assert_eq!(message("var a = 1 print"), "Expect ';' after variable declaration.");
    assert_eq!(message("a b;"), "Expect ';' after expression.");
    assert_eq!(message("{ a; print ; }"), "Expect expression.");
    assert_eq!(message("{ a; ) }"), "Expect expression.");
    assert_eq!(message("if a) b;"), "Expect '(' after 'if'.");
    assert_eq!(message("if (a b;"), "Expect ')' after 'if'.");
    assert_eq!(message("while a) b;"), "Expect '(' after 'while'.");
    assert_eq!(message("while (a b;"), "Expect ')' after condition.");
    assert_eq!(message("for a;;) b;"), "Expect '(' after 'for'.");
    assert_eq!(message("for (;a b;) c;"), "Expect ';' after loop condition.");
    assert_eq!(message("for (;;a b) c;"), "Expect ')' after for clauses.");
    assert_eq!(message("return 1 2;"), "Expect ';' after return value.");
    assert_eq!(message("fun (a) {}"), "Expect function name.");
    assert_eq!(message("fun f a) {}"), "Expect '(' after function name.");
    assert_eq!(message("fun f(1) {}"), "Expect parameter name.");
    assert_eq!(message("fun f(a b) {}"), "Expect ')' after parameters.");
    assert_eq!(message("fun f(a) a;"), "Expect '{' before function body.");
    assert_eq!(message("f(a b);"), "Expect ')' after arguments.");
    assert!(matches!(&errors("{ a;")[0], ParseError::ParseEOF { .. }));
}

#[test]
fn parsing_goes_on_after_an_error() {
    let (statements, errors) = parse_source("print 1 2; print 3; var = ; print 4;").unwrap();
    assert_eq!(errors.len(), 2);
    assert_eq!(statements, parsed("print 3; print 4;"));
}

#[test]
fn skipping_stops_before_a_declaration() {
    let (statements, errors) = parse_source("1 2 3 print 5;").unwrap();
    assert_eq!(errors.len(), 1);
    assert_eq!(statements, parsed("print 5;"));
    let (statements, errors) = parse_source("1 2 3 fun f() {} a b while (c) d;").unwrap();
    assert_eq!(errors.len(), 2);
    assert_eq!(statements, parsed("fun f() {} while (c) d;"));
}

#[test]
fn the_token_at_which_a_declaration_failed_is_skipped() {
    let (statements, errors) = parse_source("print 1 + var a = 2; print 5;").unwrap();
    assert_eq!(errors.len(), 1);
    assert_eq!(statements, parsed("print 5;"));
    let (statements, errors) = parse_source("class print 1;").unwrap();
    assert_eq!(errors.len(), 1);
    assert_eq!(statements, parsed("print 1;"));
}

#[test]
fn skipping_stops_after_a_semicolon() {
    let (statements, errors) = parse_source("1 2; a;").unwrap();
    assert_eq!(errors.len(), 1);
    assert_eq!(statements, parsed("a;"));
    let (statements, errors) = parse_source("print ; a;").unwrap();
    assert_eq!(errors.len(), 1);
    assert_eq!(statements, parsed("a;"));
}

#[test]
fn an_error_inside_a_block_leaves_out_one_declaration() {
    let (statements, errors) = parse_source("{ print 1; print ; print 2; } print 3;").unwrap();
    assert_eq!(errors.len(), 1);
    assert_eq!(statements, parsed("{ print 1; print 2; } print 3;"));
}

#[test]
fn parser_reads_from_its_position_on() {
    let tokens = scan_source("print 1; print 2;").unwrap();
    let mut parser = Parser::new(tokens);
    assert!(parser.is_well_formed());
    parser.current = 3;
    let statements = parser.parse();
    assert_eq!(statements, parsed("print 2;"));
    assert_eq!(parser.current, 6);
    assert!(parser.errors.is_empty());
    let expression = Parser::new(scan_source("1 + 2").unwrap()).expression().unwrap();
    assert_eq!(ast_print(&expression), "(+ (1.00) (2.00))");
    assert!(!Parser::new(Vec::new()).is_well_formed());
}
