//! The resolver on concrete programs.
use rlox::parser::Parser;
use rlox::resolution::Resolution;
use rlox::resolver::{ClassType, FunctionType, Resolver};
use rlox::scanner::scan;

fn resolve(source: &str) -> (Vec<Option<usize>>, Vec<String>) {
    let (tokens, errors) = scan(source);
    assert!(errors.is_empty());
    let mut parser = Parser::from(tokens, 0);
    let statements = parser.parse();
    assert!(parser.errors.is_empty(), "{:?}", parser.errors);
    let mut resolver = Resolver::new(Resolution::new());
    resolver.resolve(&statements);
    assert!(resolver.scopes.is_empty());
    assert_eq!(resolver.current_function, FunctionType::NotFun);
    assert_eq!(resolver.current_class, ClassType::NotClass);
    let depths = (0..parser.next_id).map(|id| resolver.resolution.get_step_for_id(id)).collect();
    let complaints = resolver.errors.iter().map(|d| d.render()).collect();
    (depths, complaints)
}

fn depths(source: &str) -> Vec<Option<usize>> {
    let (depths, complaints) = resolve(source);
    assert_eq!(complaints, Vec::<String>::new());
    depths
}

#[test]
fn globals_get_no_depth() {
    assert_eq!(depths("var a = 1; print a; a = 2; fun f() {} f();"), vec![None, None, None]);
    assert_eq!(depths("{ a; a = 1; }"), vec![None, None]);
}

#[test]
fn locals_get_the_distance_to_their_scope() {
    assert_eq!(depths("{ var a; a; { a; { a; } } }"), vec![Some(0), Some(1), Some(2)]);
    assert_eq!(depths("{ var a; { var a; a; } a; }"), vec![Some(0), Some(0)]);
    assert_eq!(depths("{ var a; { var b; a = b; } }"), vec![Some(1), Some(0)]);
}

#[test]
fn parameters_live_in_the_scope_of_the_body() {
    assert_eq!(depths("fun f(a, b) { a; { b; } } var g;"), vec![Some(0), Some(1)]);
    assert_eq!(depths("fun f(a) { fun g(b) { a; b; g; f; } }"), vec![
        Some(1),
        Some(0),
        Some(1),
        None
    ]);
}

#[test]
fn a_use_binds_to_what_is_declared_before_it() {
    assert_eq!(depths("var a; { fun show() { a; } var a; a; }"), vec![None, Some(0)]);
}

#[test]
fn this_and_super_live_in_scopes_of_the_class() {
    assert_eq!(depths("class A { m() { this; { this; } } }"), vec![Some(1), Some(2)]);
    assert_eq!(depths("class A {} class B < A { m() { super.m; this; } }"), vec![
        None,
        Some(2),
        Some(1)
    ]);
    assert_eq!(depths("{ class A {} class B < A { m() { super.m; } } }"), vec![Some(0), Some(2)]);
}

#[test]
fn assignment_resolves_its_value_first() {
    assert_eq!(depths("{ var a; var b; a = b; }"), vec![Some(0), Some(0)]);
}

#[test]
fn depths_add_to_a_resolution() {
    let (tokens, _) = scan("{ var a; a; }");
    let mut parser = Parser::from(tokens, 7);
    let statements = parser.parse();
    let mut resolution = Resolution::new();
    resolution.set_step_for_id(3, 9);
    let mut resolver = Resolver::new(resolution);
    resolver.resolve(&statements);
    assert_eq!(resolver.resolution.get_step_for_id(3), Some(9));
    assert_eq!(resolver.resolution.get_step_for_id(7), Some(0));
    assert_eq!(resolver.resolution.get_step_for_id(8), None);
}

#[test]
fn complaints() {
    let cases = [
        ("return;", "[line 1] Error at 'return': Can't return from top-level code."),
        ("{ return 1; }", "[line 1] Error at 'return': Can't return from top-level code."),
        ("this;", "[line 1] Error at 'this': Can't use 'this' outside of a class."),
        ("fun f() { this; }", "[line 1] Error at 'this': Can't use 'this' outside of a class."),
        ("super.a;", "[line 1] Error at 'super': Can't use 'super' outside of a class."),
        (
            "class A { m() { super.a; } }",
            "[line 1] Error at 'super': Can't use 'super' in a class with no superclass.",
        ),
        ("class A < A {}", "[line 1] Error at 'A': A class can't inherit from itself."),
        (
            "fun f() { var a; var a; }",
            "[line 1] Error at 'a': Already a variable with this name in this scope.",
        ),
        ("{ var a = a; }", "[line 1] Error at 'a': Can't read local variable in its own initializer."),
        (
            "class A { init() { return 1 + 2; } }",
            "[line 1] Error at 'return': Can't return a value from an initializer.",
        ),
        (
            "class A {\n init() {\n return \"a\"; } }",
            "[line 3] Error at 'return': Can't return a value from an initializer.",
        ),
    ];
    for (source, complaint) in cases {
        let (_, complaints) = resolve(source);
        assert_eq!(complaints, vec![complaint.to_string()], "for {}", source);
    }
}

#[test]
fn what_is_allowed() {
    for source in [
        "var a = 1; var a = 2;",
        "var a = a;",
        "fun f() { return; } fun g() { return 1; }",
        "class A { init() { return; } m() { return 1; } }",
        "class A { init() { return nil; } }",
        "class A { m() { fun g() { this; } } }",
        "class A {} class B < A { m() { fun g() { super.m; } } }",
        "class A { init() { fun g() { return 1; } } }",
        "{ var a; { var a; } }",
    ] {
        let (_, complaints) = resolve(source);
        assert_eq!(complaints, Vec::<String>::new(), "for {}", source);
    }
}

#[test]
fn the_walk_goes_on_after_a_complaint() {
    let (depths, complaints) = resolve("{ var a; var a; this; a; return a; }");
    assert_eq!(complaints, vec![
        "[line 1] Error at 'a': Already a variable with this name in this scope.",
        "[line 1] Error at 'this': Can't use 'this' outside of a class.",
        "[line 1] Error at 'return': Can't return from top-level code.",
    ]);
    assert_eq!(depths, vec![None, Some(0), Some(0)]);
}

#[test]
fn a_class_inside_a_method_is_a_class_of_its_own() {
    let (_, complaints) =
        resolve("class A {} class B < A { m() { class C { n() { super.n; } } super.m; } }");
    assert_eq!(complaints, vec![
        "[line 1] Error at 'super': Can't use 'super' in a class with no superclass."
    ]);
}
