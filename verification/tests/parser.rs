//! The parser on concrete token lists.
use rlox::ast_printer::AstPrinter;
use rlox::expr::Expr;
use rlox::parser::Parser;
use rlox::program::parse_source;
use rlox::scanner::scan;
use rlox::stmt::Stmt;

fn parse(source: &str) -> (Vec<Stmt>, Vec<String>, usize) {
    let (tokens, errors) = scan(source);
    assert!(errors.is_empty());
    let mut parser = Parser::from(tokens, 0);
    let statements = parser.parse();
    let complaints = parser.errors.iter().map(|d| d.render()).collect();
    (statements, complaints, parser.next_id)
}

fn expression(source: &str) -> String {
    let (tokens, errors) = scan(source);
    assert!(errors.is_empty());
    let mut parser = Parser::from(tokens, 0);
    let parsed = parser.expression();
    assert!(parser.errors.is_empty(), "{:?}", parser.errors);
    AstPrinter {}.print(&parsed.unwrap())
}

fn show(statement: &Stmt) -> String {
    let printer = AstPrinter {};
    match statement {
        Stmt::ExpressionStmt { expression } => format!("{};", printer.print(expression)),
        Stmt::PrintStmt { expression } => format!("print {};", printer.print(expression)),
        Stmt::VarStmt { name, initializer } => {
            format!("var {} = {};", name.lexeme, printer.print(initializer))
        }
        Stmt::BlockStmt { statements } => {
            let inner: Vec<String> = statements.iter().map(show).collect();
            format!("{{ {} }}", inner.join(" "))
        }
        Stmt::IfStmt { condition, then_branch, else_branch } => match else_branch {
            Some(other) => {
                format!("if {} {} else {}", printer.print(condition), show(then_branch), show(other))
            }
            None => format!("if {} {}", printer.print(condition), show(then_branch)),
        },
        Stmt::WhileStmt { condition, body } => {
            format!("while {} {}", printer.print(condition), show(body))
        }
        Stmt::FunctionStmt { declaration } => {
            let params: Vec<String> = declaration.params.iter().map(|p| p.lexeme.clone()).collect();
            let body: Vec<String> = declaration.body.iter().map(show).collect();
            format!("fun {}({}) {{ {} }}", declaration.name.lexeme, params.join(", "), body.join(" "))
        }
        Stmt::ReturnStmt { keyword: _, value } => format!("return {};", printer.print(value)),
        Stmt::ClassStmt { declaration } => {
            let methods: Vec<String> =
                declaration.methods.iter().map(|m| m.name.lexeme.clone()).collect();
            match &declaration.superclass {
                Some(parent) => format!(
                    "class {} < {} {{ {} }}",
                    declaration.name.lexeme,
                    parent.name.lexeme,
                    methods.join(" ")
                ),
                None => format!("class {} {{ {} }}", declaration.name.lexeme, methods.join(" ")),
            }
        }
    }
}

fn program(source: &str) -> Vec<String> {
    let (statements, complaints, _) = parse(source);
    assert_eq!(complaints, Vec::<String>::new());
    statements.iter().map(show).collect()
}

#[test]
fn binary_operators_bind_by_level() {
    assert_eq!(expression("1 + 2 * 3"), "(1 + (2 * 3))");
    assert_eq!(expression("1 * 2 + 3"), "((1 * 2) + 3)");
    assert_eq!(expression("1 < 2 == 3 > 4"), "((1 < 2) == (3 > 4))");
    assert_eq!(expression("a or b and c"), "(a or (b and c))");
    assert_eq!(expression("a and b == c"), "(a and (b == c))");
    assert_eq!(expression("1 + 2 <= 3 - 4"), "((1 + 2) <= (3 - 4))");
}

#[test]
fn binary_operators_join_from_the_left() {
    assert_eq!(expression("1 - 2 - 3"), "((1 - 2) - 3)");
    assert_eq!(expression("8 / 4 / 2 * 3"), "(((8 / 4) / 2) * 3)");
    assert_eq!(expression("a == b != c"), "((a == b) != c)");
    assert_eq!(expression("a or b or c"), "((a or b) or c)");
    assert_eq!(expression("1 >= 2 > 3"), "((1 >= 2) > 3)");
}

#[test]
fn unary_operators_and_groups() {
    assert_eq!(expression("-1"), "(-1)");
    assert_eq!(expression("!!a"), "(!(!a))");
    assert_eq!(expression("-a * b"), "((-a) * b)");
    assert_eq!(expression("(1 + 2) * 3"), "((group (1 + 2)) * 3)");
    assert_eq!(expression("!(a == b)"), "(!(group (a == b)))");
}

#[test]
fn literals() {
    assert_eq!(expression("nil"), "nil");
    assert_eq!(expression("true"), "true");
    assert_eq!(expression("false"), "false");
    assert_eq!(expression("12.50"), "12.50");
    assert_eq!(expression("\"a b\""), "\"a b\"");
}

#[test]
fn assignment_joins_from_the_right() {
    assert_eq!(expression("a = b = 1"), "(a = (b = 1))");
    assert_eq!(expression("a.b = c"), "(a.b = c)");
    assert_eq!(expression("a.b.c = d or e"), "(a.b.c = (d or e))");
    assert_eq!(expression("a = b.c = 1"), "(a = (b.c = 1))");
}

#[test]
fn calls_and_properties() {
    assert_eq!(expression("f()"), "f()");
    assert_eq!(expression("f(1, a + 2)"), "f( 1 (a + 2))");
    assert_eq!(expression("f(1)(2).g.h(3)"), "f( 1)( 2).g.h( 3)");
    assert_eq!(expression("this.a"), "this.a");
    assert_eq!(expression("super.m(1)"), "super.m( 1)");
    assert_eq!(expression("-f(1)"), "(-f( 1))");
}

#[test]
fn statements() {
    assert_eq!(program("1;"), vec!["1;"]);
    assert_eq!(program("print 1 + 2; var a; var b = 3;"), vec![
        "print (1 + 2);",
        "var a = nil;",
        "var b = 3;"
    ]);
    assert_eq!(program("{ } { a; { b; } }"), vec!["{  }", "{ a; { b; } }"]);
    assert_eq!(program("if (a) b; else c;"), vec!["if a b; else c;"]);
    assert_eq!(program("if (a) if (b) c; else d;"), vec!["if a if b c; else d;"]);
    assert_eq!(program("while (a < 1) { a = a + 1; }"), vec!["while (a < 1) { (a = (a + 1)); }"]);
    assert_eq!(program("fun f(a, b) { return a; return; }"), vec![
        "fun f(a, b) { return a; return nil; }"
    ]);
    assert_eq!(program("class A { m() {} init(x) {} } class B < A {}"), vec![
        "class A { m init }",
        "class B < A {  }"
    ]);
}

#[test]
fn for_loops_become_while_loops() {
    assert_eq!(program("for (;;) a;"), vec!["while true a;"]);
    assert_eq!(program("for (var i = 0; i < 3; i = i + 1) print i;"), vec![
        "{ var i = 0; while (i < 3) { print i; (i = (i + 1)); } }"
    ]);
    assert_eq!(program("for (i = 0; ; ) {}"), vec!["{ (i = 0); while true {  } }"]);
    assert_eq!(program("for (; a; b) c;"), vec!["while a { c; b; }"]);
}

#[test]
fn variable_references_get_dense_ids() {
    let (statements, complaints, next_id) = parse("a = b + this.c; super.m; class D < E {}");
    assert!(complaints.is_empty());
    assert_eq!(next_id, 5);
    match &statements[0] {
        Stmt::ExpressionStmt { expression: Expr::AssignExpr { name, value, id } } => {
            assert_eq!(name.lexeme, "a");
            assert_eq!(*id, 0);
            match &**value {
                Expr::BinaryExpr { left, operator, right } => {
                    assert_eq!(operator.lexeme, "+");
                    assert!(matches!(&**left, Expr::VariableExpr { name, id: 1 } if name.lexeme == "b"));
                    match &**right {
                        Expr::GetExpr { object, name } => {
                            assert_eq!(name.lexeme, "c");
                            assert!(matches!(&**object, Expr::ThisExpr { keyword: _, id: 2 }));
                        }
                        _ => panic!("a property access is expected"),
                    }
                }
                _ => panic!("a sum is expected"),
            }
        }
        _ => panic!("an assignment is expected"),
    }
    assert!(matches!(
        &statements[1],
        Stmt::ExpressionStmt { expression: Expr::SuperExpr { keyword: _, method, id: 3 } }
            if method.lexeme == "m"
    ));
    match &statements[2] {
        Stmt::ClassStmt { declaration } => {
            let parent = declaration.superclass.as_ref().unwrap();
            assert_eq!(parent.name.lexeme, "E");
            assert_eq!(parent.id, 4);
        }
        _ => panic!("a class is expected"),
    }
}

#[test]
fn ids_go_on_from_the_first_id() {
    let (tokens, _) = scan("a; b;");
    let mut parser = Parser::from(tokens, 40);
    let statements = parser.parse();
    assert_eq!(parser.next_id, 42);
    assert!(matches!(
        &statements[1],
        Stmt::ExpressionStmt { expression: Expr::VariableExpr { name: _, id: 41 } }
    ));
    let (tokens, _) = scan("a;");
    let mut full = Parser::from(tokens, usize::MAX);
    let statements = full.parse();
    assert_eq!(full.next_id, usize::MAX);
    assert!(matches!(
        &statements[0],
        Stmt::ExpressionStmt { expression: Expr::VariableExpr { name: _, id: usize::MAX } }
    ));
}

#[test]
fn missing_pieces_are_reported() {
    let cases = [
        ("(1", "[line 1] Error at end: Expect ')' after expression."),
        ("1 +;", "[line 1] Error at ';': Expect expression."),
        ("print 1", "[line 1] Error at end: Expect ';' after value."),
        ("1", "[line 1] Error at end: Expect ';' after expression."),
        ("var;", "[line 1] Error at ';': Expect variable name."),
        ("var a = 1", "[line 1] Error at end: Expect ';' after variable declaration."),
        ("{ a;", "[line 1] Error at end: Expect '}' after block."),
        ("if a", "[line 1] Error at 'a': Expect '(' after 'if'."),
        ("if (a b;", "[line 1] Error at 'b': Expect ')' after if condition."),
        ("while a", "[line 1] Error at 'a': Expect '(' after 'while'."),
        ("while (a b;", "[line 1] Error at 'b': Expect ')' after condition."),
        ("for a", "[line 1] Error at 'a': Expect '(' after 'for'."),
        ("for (;a b) c;", "[line 1] Error at 'b': Expect ';' after loop condition."),
        ("for (;;a b) c;", "[line 1] Error at 'b': Expect ')' after for clauses."),
        ("return 1", "[line 1] Error at end: Expect ';' after return value."),
        ("fun (", "[line 1] Error at '(': Expect function name."),
        ("fun f {", "[line 1] Error at '{': Expect '(' after function name."),
        ("fun f(1", "[line 1] Error at '1': Expect parameter name."),
        ("fun f(a {", "[line 1] Error at '{': Expect ')' after parameters."),
        ("fun f() a", "[line 1] Error at 'a': Expect '{' before function body."),
        ("class {", "[line 1] Error at '{': Expect class name."),
        ("class A < {", "[line 1] Error at '{': Expect superclass name."),
        ("class A a", "[line 1] Error at 'a': Expect '{' before class body."),
        ("class A { m() {}", "[line 1] Error at end: Expect '}' after class body."),
        ("class A { 1 }", "[line 1] Error at '1': Expect method name."),
        ("class A { m {} }", "[line 1] Error at '{': Expect '(' after method name."),
        ("class A { m() 1 }", "[line 1] Error at '1': Expect '{' before method body."),
        ("f(1 2);", "[line 1] Error at '2': Expect ')' after arguments."),
        ("a.1;", "[line 1] Error at '1': Expect property name after '.'."),
        ("super;", "[line 1] Error at ';': Expect '.' after 'super'."),
        ("super.1;", "[line 1] Error at '1': Expect superclass method name."),
        ("1 = 2;", "[line 1] Error at '=': Invalid assignment target."),
    ];
    for (source, complaint) in cases {
        let (_, complaints, _) = parse(source);
        assert_eq!(complaints.first().map(|c| c.as_str()), Some(complaint), "for {}", source);
    }
}

#[test]
fn recovery_resumes_at_the_next_statement() {
    let (statements, complaints, _) =
        parse("print 1 2 3; print 4;\nvar = 5; 6; class 7\nwhile (a) b; fun ) c d print e;");
    assert_eq!(complaints, vec![
        "[line 1] Error at '2': Expect ';' after value.",
        "[line 2] Error at '=': Expect variable name.",
        "[line 2] Error at '7': Expect class name.",
        "[line 3] Error at ')': Expect function name.",
    ]);
    let shown: Vec<String> = statements.iter().map(show).collect();
    assert_eq!(shown, vec!["print 4;", "6;", "while a b;", "print e;"]);
}

#[test]
fn recovery_gives_up_the_token_it_stands_at() {
    let (statements, complaints, _) = parse("class\nwhile (a) b; c;");
    assert_eq!(complaints, vec!["[line 2] Error at 'while': Expect class name."]);
    let shown: Vec<String> = statements.iter().map(show).collect();
    assert_eq!(shown, vec!["c;"]);
}

#[test]
fn recovery_inside_a_block_keeps_the_block() {
    let (statements, complaints, _) = parse("{ a; 1 +; b; } c;");
    assert_eq!(complaints, vec!["[line 1] Error at ';': Expect expression."]);
    let shown: Vec<String> = statements.iter().map(show).collect();
    assert_eq!(shown, vec!["{ a; b; }", "c;"]);
}

#[test]
fn too_many_arguments_are_reported_and_parsed() {
    let arguments: Vec<String> = (0..256).map(|i| i.to_string()).collect();
    let source = format!("f({});", arguments.join(", "));
    let (statements, complaints, _) = parse(&source);
    assert_eq!(complaints, vec!["[line 1] Error at '255': Can't have more than 255 arguments."]);
    match &statements[0] {
        Stmt::ExpressionStmt { expression: Expr::CallExpr { callee: _, paren: _, arguments } } => {
            assert_eq!(arguments.len(), 256);
        }
        _ => panic!("a call is expected"),
    }
    let fine: Vec<String> = (0..255).map(|i| i.to_string()).collect();
    let (_, complaints, _) = parse(&format!("f({});", fine.join(", ")));
    assert!(complaints.is_empty());
}

#[test]
fn too_many_parameters_are_reported_and_parsed() {
    let parameters: Vec<String> = (0..256).map(|i| format!("p{}", i)).collect();
    let source = format!("fun f({}) {{}}", parameters.join(", "));
    let (statements, complaints, _) = parse(&source);
    assert_eq!(complaints, vec!["[line 1] Error at 'p255': Can't have more than 255 parameters."]);
    match &statements[0] {
        Stmt::FunctionStmt { declaration } => assert_eq!(declaration.params.len(), 256),
        _ => panic!("a function is expected"),
    }
}

#[test]
fn empty_program() {
    let (statements, complaints, next_id) = parse("");
    assert!(statements.is_empty());
    assert!(complaints.is_empty());
    assert_eq!(next_id, 0);
}

#[test]
fn source_text_becomes_a_program() {
    let program = parse_source("var a = 1;\nprint a + b;", 10);
    assert!(!program.had_error());
    assert_eq!(program.tokens.len(), 11);
    assert_eq!(program.next_id, 12);
    let shown: Vec<String> = program.statements.iter().map(show).collect();
    assert_eq!(shown, vec!["var a = 1;", "print (a + b);"]);
    assert!(program.scan_errors.is_empty());
    assert!(program.parse_errors.is_empty());
}

#[test]
fn complaints_of_the_scanner_and_the_parser_are_kept_apart() {
    let program = parse_source("print #1;\nprint ;\nprint 2;", 0);
    assert!(program.had_error());
    assert_eq!(program.scan_errors.len(), 1);
    assert_eq!(program.scan_errors[0].render(), "[line 1] Error: Unexpected character.");
    assert_eq!(program.parse_errors.len(), 1);
    assert_eq!(program.parse_errors[0].render(), "[line 2] Error at ';': Expect expression.");
    let shown: Vec<String> = program.statements.iter().map(show).collect();
    assert_eq!(shown, vec!["print 1;", "print 2;"]);
    assert!(parse_source("\"open", 0).had_error());
    assert!(parse_source("1", 0).had_error());
    assert!(!parse_source("", 0).had_error());
}
