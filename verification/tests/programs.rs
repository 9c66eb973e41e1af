//! Whole programs, from source text to what they print.
use rlox::interpreter::{Interpreter, Operation, Output, Request};
use rlox::parser::Parser;
use rlox::report::runtime_error;
use rlox::scanner::scan;

struct Outcome {
    out: Vec<String>,
    err: Vec<String>,
    code: i32,
}

fn arithmetic(operation: Operation, left: u64, right: u64) -> u64 {
    let a = f64::from_bits(left);
    let b = f64::from_bits(right);
    let r = match operation {
        Operation::Add => a + b,
        Operation::Subtract => a - b,
        Operation::Multiply => a * b,
        Operation::Divide => a / b,
    };
    r.to_bits()
}

fn run(source: &str) -> Outcome {
    let mut out: Vec<String> = Vec::new();
    let mut err: Vec<String> = Vec::new();
    let (tokens, scan_errors) = scan(source);
    for complaint in &scan_errors {
        err.push(complaint.render());
    }
    let mut parser = Parser::from(tokens, 0);
    let statements = parser.parse();
    for complaint in &parser.errors {
        err.push(complaint.render());
    }
    let mut machine = Interpreter::new();
    for complaint in &machine.resolve(&statements) {
        err.push(complaint.render());
    }
    if !err.is_empty() {
        return Outcome { out, err, code: 65 };
    }
    machine.interpret(&statements);
    let mut code = 0;
    let mut steps: u64 = 0;
    loop {
        steps += 1;
        assert!(steps < 10_000_000, "the program does not end");
        match machine.step() {
            Request::Continue => {}
            Request::Finished => break,
            Request::Failed(error) => {
                err.push(runtime_error(&error));
                code = 70;
                break;
            }
            Request::Print(Output::Text(text)) => out.push(text),
            Request::Print(Output::Number(bits)) => out.push(format!("{}", f64::from_bits(bits))),
            Request::Numeral(text) => {
                assert!(machine.supply_number(text.parse::<f64>().unwrap().to_bits()));
            }
            Request::Arithmetic { operation, left, right } => {
                assert!(machine.supply_number(arithmetic(operation, left, right)));
            }
            Request::Clock => {
                assert!(machine.supply_number(1_700_000_000.5_f64.to_bits()));
            }
        }
    }
    assert!(machine.is_halted());
    Outcome { out, err, code }
}

fn prints(source: &str, lines: &[&str]) {
    let outcome = run(source);
    assert_eq!(outcome.err, Vec::<String>::new(), "stderr of {}", source);
    assert_eq!(outcome.code, 0);
    let expected: Vec<String> = lines.iter().map(|l| l.to_string()).collect();
    assert_eq!(outcome.out, expected, "stdout of {}", source);
}

fn fails_with(source: &str, message: &str, line: usize, printed: &[&str]) {
    let outcome = run(source);
    assert_eq!(outcome.code, 70, "exit code of {}", source);
    assert_eq!(outcome.err, vec![format!("{}\n[line {}]", message, line)]);
    let expected: Vec<String> = printed.iter().map(|l| l.to_string()).collect();
    assert_eq!(outcome.out, expected);
}

fn rejected_with(source: &str, complaints: &[&str]) {
    let outcome = run(source);
    assert_eq!(outcome.code, 65, "exit code of {}", source);
    let expected: Vec<String> = complaints.iter().map(|l| l.to_string()).collect();
    assert_eq!(outcome.err, expected);
    assert!(outcome.out.is_empty());
}

#[test]
fn arithmetic_follows_precedence() {
    prints("print 1 + 2 * 3;", &["7"]);
}

#[test]
fn resolver_binds_to_the_global_seen_at_declaration() {
    prints(
        "var a = \"global\"; { fun show() { print a; } show(); var a = \"local\"; show(); }",
        &["global", "global"],
    );
}

#[test]
fn super_calls_the_method_of_the_superclass() {
    prints(
        "class A { m() { print \"A\"; } } class B < A { m() { super.m(); print \"B\"; } } B().m();",
        &["A", "B"],
    );
}

#[test]
fn closure_counts() {
    prints(
        "fun counter() { var i = 0; fun tick() { i = i + 1; return i; } return tick; }\n\
         var t = counter(); print t(); print t(); print t();",
        &["1", "2", "3"],
    );
}

#[test]
fn initializer_with_bare_return_gives_the_instance() {
    prints("class Foo { init() { return; } } print Foo();", &["<cls Foo> instance"]);
}

#[test]
fn adding_nil_to_a_number_fails() {
    fails_with("var x; print x + 1;", "Operands must be two numbers or two strings.", 1, &[]);
}

#[test]
fn subtracting_from_nil_fails() {
    fails_with("var x; print x - 1;", "Operands must be numbers.", 1, &[]);
}

#[test]
fn strings_are_joined() {
    prints("fun f() { return \"ok\"; } print f() + f();", &["okok"]);
}

#[test]
fn left_operand_runs_before_right() {
    prints(
        "fun a() { print \"a\"; return 1; } fun b() { print \"b\"; return 2; } print a() + b();",
        &["a", "b", "3"],
    );
}

#[test]
fn object_runs_before_assigned_value() {
    prints(
        "class C {} var c = C();\n\
         fun a() { print \"a\"; return c; } fun g() { print \"g\"; return 5; }\n\
         a().f = g(); print c.f;",
        &["a", "g", "5"],
    );
}

#[test]
fn assignment_to_a_field_of_no_instance_fails_before_the_value_runs() {
    fails_with(
        "fun g() { print \"g\"; return 5; }\nvar n; n.f = g();",
        "Only instances have fields.",
        2,
        &[],
    );
}

#[test]
fn short_circuit_leaves_the_right_operand_alone() {
    prints(
        "fun loud() { print \"loud\"; return true; }\n\
         print true or loud(); print false and loud(); print nil or \"x\"; print 1 and 2;\n\
         print false or loud();",
        &["true", "false", "x", "2", "loud", "true"],
    );
}

#[test]
fn inner_definition_leaves_the_outer_binding() {
    prints(
        "fun f() { var a = 1; { var a = 2; print a; a = 3; print a; } print a; } f();",
        &["2", "3", "1"],
    );
}

#[test]
fn closure_sees_later_assignments() {
    prints(
        "var show; { var a = 1; fun s() { print a; } show = s; show(); a = 2; show(); }",
        &["1", "2"],
    );
}

#[test]
fn initializer_returns_the_instance_when_called_again() {
    prints(
        "class P { init(x) { this.x = x; if (x > 0) return; this.x = 0 - 1; } }\n\
         var p = P(3); print p.x; var q = p.init(0); print q.x; print p.x;",
        &["3", "-1", "-1"],
    );
}

#[test]
fn super_goes_by_the_class_of_the_method_not_of_the_object() {
    prints(
        "class A { m() { print \"A\"; } }\n\
         class B < A { m() { print \"B\"; } t() { super.m(); } }\n\
         class C < B { m() { print \"C\"; } }\n\
         C().t();",
        &["A"],
    );
}

#[test]
fn super_finds_the_nearest_ancestor() {
    prints(
        "class A { m() { return \"A\"; } } class B < A {} class C < B { m() { return super.m() + \"C\"; } }\n\
         print C().m();",
        &["AC"],
    );
}

#[test]
fn numbers_print_without_a_needless_fraction() {
    prints(
        "print 3; print 2.5; print 10 / 4; print 7 - 10; print 4294967296 * 4; print 0.1 + 0.2;",
        &["3", "2.5", "2.5", "-3", "17179869184", "0.30000000000000004"],
    );
}

#[test]
fn division_by_zero_is_the_hosts_double() {
    prints("print 1 / 0; print 0 - 1 / 0; print 0 / 0 == 0 / 0;", &["inf", "-inf", "false"]);
}

#[test]
fn values_print_as_themselves() {
    prints(
        "print nil; print true; print false; print \"text\"; print clock;\n\
         fun f() {} print f; class A {} class B < A {} print A; print B; print B();",
        &[
            "nil",
            "true",
            "false",
            "text",
            "<native fn>",
            "<fn f>",
            "<cls A>",
            "<cls B> extends <cls A>",
            "<cls B> instance",
        ],
    );
}

#[test]
fn equality_is_by_kind_and_value() {
    prints(
        "print nil == nil; print 1 == 1; print 1 == 2; print \"a\" == \"a\"; print \"a\" == \"b\";\n\
         print 1 == true; print nil == false; print \"1\" == 1; print 1 != 2; print true == true;\n\
         print 0 == -0;",
        &["true", "true", "false", "true", "false", "false", "false", "false", "true", "true", "true"],
    );
}

#[test]
fn comparison_of_numbers() {
    prints(
        "print 1 < 2; print 2 < 1; print 2 <= 2; print 3 > 2; print 2 >= 3; print -1 < 0; print -2 < -1;\n\
         print 0 / 0 < 1; print 0 / 0 >= 1;",
        &["true", "false", "true", "true", "false", "true", "true", "false", "false"],
    );
}

#[test]
fn truthiness() {
    prints(
        "if (0) print \"zero\"; if (\"\") print \"empty\"; if (nil) print \"nil\"; else print \"no nil\";\n\
         if (false) print \"false\"; else print \"no false\"; print !nil; print !0; print !!\"a\";",
        &["zero", "empty", "no nil", "no false", "true", "false", "true"],
    );
}

#[test]
fn unary_minus() {
    prints("print -3; print --3; print -(1 + 2); print -0.5;", &["-3", "3", "-3", "-0.5"]);
    fails_with("print -\"a\";", "Operand must be a number.", 1, &[]);
}

#[test]
fn while_and_for_loops() {
    prints(
        "var i = 0; while (i < 3) { print i; i = i + 1; }\n\
         for (var j = 0; j < 3; j = j + 1) print j;\n\
         var k = 5; for (; k > 3;) { print k; k = k - 1; }",
        &["0", "1", "2", "0", "1", "2", "5", "4"],
    );
}

#[test]
fn recursion() {
    prints(
        "fun fib(n) { if (n < 2) return n; return fib(n - 1) + fib(n - 2); } print fib(15);",
        &["610"],
    );
}

#[test]
fn function_without_return_gives_nil() {
    prints("fun f() {} print f(); fun g() { return; } print g();", &["nil", "nil"]);
}

#[test]
fn return_leaves_loops_and_blocks() {
    prints(
        "fun f() { var i = 0; while (true) { { if (i == 3) return i; } i = i + 1; } } print f();\n\
         var a = \"outer\"; fun g() { { var a = \"inner\"; return a; } } print g(); print a;",
        &["3", "inner", "outer"],
    );
}

#[test]
fn fields_and_methods() {
    prints(
        "class Cake { taste() { var adjective = \"delicious\"; print \"The \" + this.flavor + \" cake is \" + adjective + \"!\"; } }\n\
         var cake = Cake(); cake.flavor = \"German chocolate\"; cake.taste();\n\
         var t = cake.taste; cake.flavor = \"plum\"; t();",
        &["The German chocolate cake is delicious!", "The plum cake is delicious!"],
    );
}

#[test]
fn fields_shadow_methods() {
    prints(
        "class A { m() { return \"method\"; } } var a = A(); print a.m(); a.m = \"field\"; print a.m;",
        &["method", "field"],
    );
}

#[test]
fn instances_are_shared() {
    prints(
        "class Box {} var a = Box(); var b = a; b.v = 1; print a.v; a.v = 2; print b.v;",
        &["1", "2"],
    );
}

#[test]
fn initializer_takes_arguments() {
    prints(
        "class P { init(x, y) { this.x = x; this.y = y; } sum() { return this.x + this.y; } }\n\
         print P(1, 2).sum();",
        &["3"],
    );
}

#[test]
fn inherited_initializer_and_methods() {
    prints(
        "class A { init(x) { this.x = x; } get() { return this.x; } } class B < A {}\n\
         print B(4).get();",
        &["4"],
    );
}

#[test]
fn class_can_refer_to_itself() {
    prints(
        "class Node { make() { return Node(); } } print Node().make();",
        &["<cls Node> instance"],
    );
}

#[test]
fn clock_is_a_number() {
    prints("print clock() > 0; print clock() - clock();", &["true", "0"]);
}

#[test]
fn undefined_variable() {
    fails_with("print a;", "Undefined variable 'a'.", 1, &[]);
    fails_with("print 1;\na = 2;", "Undefined variable 'a'.", 2, &["1"]);
}

#[test]
fn wrong_number_of_arguments() {
    fails_with("fun f(a, b) {}\nf(1);", "Expected 2 arguments but got 1.", 2, &[]);
    fails_with("class A {} A(1);", "Expected 0 arguments but got 1.", 1, &[]);
    fails_with("class A { init(a) {} } A();", "Expected 1 arguments but got 0.", 1, &[]);
    fails_with("clock(1);", "Expected 0 arguments but got 1.", 1, &[]);
}

#[test]
fn arguments_run_before_the_call_is_checked() {
    fails_with(
        "fun f() {} fun a() { print \"a\"; return 1; }\nf(a());",
        "Expected 0 arguments but got 1.",
        2,
        &["a"],
    );
    fails_with(
        "fun a() { print \"a\"; return 1; }\n\"text\"(a());",
        "Can only call functions and classes.",
        2,
        &["a"],
    );
}

#[test]
fn calling_what_is_no_function() {
    fails_with("var a = 1; a();", "Can only call functions and classes.", 1, &[]);
    fails_with("nil();", "Can only call functions and classes.", 1, &[]);
}

#[test]
fn properties_of_what_is_no_instance() {
    fails_with("var a = 1; print a.b;", "Only instances have properties.", 1, &[]);
    fails_with("var a = \"s\"; a.b = 1;", "Only instances have fields.", 1, &[]);
    fails_with("class A {} print A.b;", "Only instances have properties.", 1, &[]);
}

#[test]
fn undefined_property() {
    fails_with("class A {} print A().b;", "Undefined property 'b'.", 1, &[]);
    fails_with(
        "class A {} class B < A { m() { super.n(); } }\nB().m();",
        "Undefined property 'n'.",
        1,
        &[],
    );
}

#[test]
fn superclass_must_be_a_class() {
    fails_with("var A = 1;\nclass B < A {}", "Superclass must be a class.", 2, &[]);
    fails_with("class B < A {}", "Undefined variable 'A'.", 1, &[]);
}

#[test]
fn mixed_operands() {
    fails_with("print 1 + \"a\";", "Operands must be two numbers or two strings.", 1, &[]);
    fails_with("print \"a\" + nil;", "Operands must be two numbers or two strings.", 1, &[]);
    fails_with("print \"a\" * 2;", "Operands must be numbers.", 1, &[]);
    fails_with("print true < 2;", "Operands must be numbers.", 1, &[]);
    fails_with("print 1 -\n\"a\";", "Operands must be numbers.", 1, &[]);
}

#[test]
fn runtime_error_stops_the_program() {
    fails_with("print 1; print nil * 1; print 2;", "Operands must be numbers.", 1, &["1"]);
}

#[test]
fn syntax_errors_keep_the_program_from_running() {
    rejected_with("print 1; print ;", &["[line 1] Error at ';': Expect expression."]);
    rejected_with("print 1", &["[line 1] Error at end: Expect ';' after value."]);
    rejected_with("var a = 1; @", &["[line 1] Error: Unexpected character."]);
    rejected_with("print \"abc", &[
        "[line 1] Error: Unterminated string.",
        "[line 1] Error at end: Expect expression.",
    ]);
}

#[test]
fn parser_goes_on_after_an_error() {
    rejected_with(
        "var 1 = 2;\nprint 3\nvar b = ;\nprint b;",
        &[
            "[line 1] Error at '1': Expect variable name.",
            "[line 3] Error at 'var': Expect ';' after value.",
        ],
    );
    rejected_with(
        "{ print (1; print 2; }\nfoo(;",
        &[
            "[line 1] Error at ';': Expect ')' after expression.",
            "[line 2] Error at ';': Expect expression.",
        ],
    );
}

#[test]
fn invalid_assignment_target() {
    rejected_with("var a; var b; a + b = 1;", &["[line 1] Error at '=': Invalid assignment target."]);
    rejected_with("(a) = 1;", &["[line 1] Error at '=': Invalid assignment target."]);
}

#[test]
fn resolver_errors_keep_the_program_from_running() {
    rejected_with("return 1;", &["[line 1] Error at 'return': Can't return from top-level code."]);
    rejected_with("print this;", &["[line 1] Error at 'this': Can't use 'this' outside of a class."]);
    rejected_with(
        "fun f() { super.m(); }",
        &["[line 1] Error at 'super': Can't use 'super' outside of a class."],
    );
    rejected_with(
        "class A { m() { super.m(); } }",
        &["[line 1] Error at 'super': Can't use 'super' in a class with no superclass."],
    );
    rejected_with("class A < A {}", &["[line 1] Error at 'A': A class can't inherit from itself."]);
    rejected_with(
        "{ var a = 1; var a = 2; }",
        &["[line 1] Error at 'a': Already a variable with this name in this scope."],
    );
    rejected_with(
        "{ var a = a; }",
        &["[line 1] Error at 'a': Can't read local variable in its own initializer."],
    );
    rejected_with(
        "class A { init() { return 1; } }",
        &["[line 1] Error at 'return': Can't return a value from an initializer."],
    );
    rejected_with(
        "class A { init() { return this; } }",
        &["[line 1] Error at 'return': Can't return a value from an initializer."],
    );
    rejected_with(
        "fun f(a, a) {}",
        &["[line 1] Error at 'a': Already a variable with this name in this scope."],
    );
}

#[test]
fn resolver_reports_every_error_in_one_pass() {
    rejected_with(
        "return 1;\nprint this;\n{ var a = a; }",
        &[
            "[line 1] Error at 'return': Can't return from top-level code.",
            "[line 2] Error at 'this': Can't use 'this' outside of a class.",
            "[line 3] Error at 'a': Can't read local variable in its own initializer.",
        ],
    );
}

#[test]
fn globals_may_be_redefined() {
    prints("var a = 1; var a = 2; print a; fun f() { print a; } var a = 3; f();", &["2", "3"]);
}

#[test]
fn comments_and_blank_lines_are_skipped() {
    prints("// nothing\nprint 1; // one\n\n// print 2;\nprint 3;", &["1", "3"]);
}

#[test]
fn strings_may_span_lines() {
    prints("print \"a\nb\";", &["a\nb"]);
    fails_with("print \"a\nb\" * 1;", "Operands must be numbers.", 2, &[]);
}

#[test]
fn deep_recursion_does_not_exhaust_the_machine() {
    prints(
        "fun down(n) { if (n == 0) return 0; return 1 + down(n - 1); } print down(20000);",
        &["20000"],
    );
}

#[test]
fn this_is_seen_by_functions_inside_a_method() {
    prints(
        "class A { init() { this.n = 7; } m() { fun g() { return this.n; } return g(); } }\n\
         print A().m();",
        &["7"],
    );
}

#[test]
fn methods_are_bound_when_they_are_read() {
    prints(
        "class A { init(n) { this.n = n; } get() { return this.n; } }\n\
         var a = A(1); var b = A(2); var f = a.get; b.get = f; print b.get(); print a.get();",
        &["1", "1"],
    );
}

#[test]
fn loop_variable_is_shared_by_closures_of_all_rounds() {
    prints(
        "var first; var last;\n\
         for (var i = 0; i < 3; i = i + 1) { fun show() { print i; } if (i == 0) first = show; last = show; }\n\
         first(); last();",
        &["3", "3"],
    );
}

#[test]
fn each_run_of_a_block_has_bindings_of_its_own() {
    prints(
        "var first; var last; var i = 0;\n\
         while (i < 3) { var j = i; fun show() { print j; } if (i == 0) first = show; last = show; i = i + 1; }\n\
         first(); last();",
        &["0", "2"],
    );
}

#[test]
fn text_of_other_scripts() {
    prints("var s = \"žluťoučký\"; print s + \" \" + \"кінь\";", &["žluťoučký кінь"]);
}

#[test]
fn functions_are_values() {
    prints(
        "fun twice(f, x) { return f(f(x)); } fun inc(n) { return n + 1; } print twice(inc, 5);\n\
         fun make() { fun inner() { return \"in\"; } return inner; } print make()();",
        &["7", "in"],
    );
}

#[test]
fn assignment_is_an_expression() {
    prints("var a; var b; a = b = 3; print a; print b; print a = 4;", &["3", "3", "4"]);
    prints("class C {} var c = C(); print c.f = 5; print (c.g = c.f) + 1;", &["5", "6"]);
}

#[test]
fn else_belongs_to_the_nearest_if() {
    prints("if (true) if (false) print 1; else print 2;", &["2"]);
    prints("if (false) if (true) print 1; else print 2; print 3;", &["3"]);
}

#[test]
fn a_superclass_method_may_call_down() {
    prints(
        "class A { hello() { return this.name(); } name() { return \"A\"; } }\n\
         class B < A { name() { return \"B\"; } hello() { return \"hello \" + super.hello(); } }\n\
         print B().hello();",
        &["hello B"],
    );
}

#[test]
fn the_same_program_runs_the_same_way_twice() {
    let source = "var a = 0; for (var i = 0; i < 5; i = i + 1) { a = a + i; print a; } print b;";
    let first = run(source);
    let second = run(source);
    assert_eq!(first.out, second.out);
    assert_eq!(first.err, second.err);
    assert_eq!(first.code, second.code);
    assert_eq!(first.code, 70);
    assert_eq!(first.out, vec!["0", "1", "3", "6", "10"]);
}

#[test]
fn a_machine_keeps_its_globals_between_programs() {
    let (first_tokens, _) = scan("var a = 1; fun next() { a = a + 1; return a; }");
    let mut first_parser = Parser::from(first_tokens, 0);
    let first = first_parser.parse();
    let (second_tokens, _) = scan("print next(); print next(); print missing;");
    let mut second_parser = Parser::from(second_tokens, first_parser.next_id);
    let second = second_parser.parse();
    let (third_tokens, _) = scan("print a;");
    let mut third_parser = Parser::from(third_tokens, second_parser.next_id);
    let third = third_parser.parse();
    let mut machine = Interpreter::new();
    let mut out: Vec<String> = Vec::new();
    let mut failures = 0;
    for program in [&first, &second, &third] {
        assert!(machine.resolve(program).is_empty());
        machine.interpret(program);
        loop {
            match machine.step() {
                Request::Continue => {}
                Request::Finished => break,
                Request::Failed(error) => {
                    assert_eq!(error.message, "Undefined variable 'missing'.");
                    failures += 1;
                    break;
                }
                Request::Print(Output::Text(text)) => out.push(text),
                Request::Print(Output::Number(bits)) => out.push(format!("{}", f64::from_bits(bits))),
                Request::Numeral(text) => {
                    machine.supply_number(text.parse::<f64>().unwrap().to_bits());
                }
                Request::Arithmetic { operation, left, right } => {
                    machine.supply_number(arithmetic(operation, left, right));
                }
                Request::Clock => {
                    machine.supply_number(0);
                }
            }
        }
    }
    assert_eq!(out, vec!["2", "3", "3"]);
    assert_eq!(failures, 1);
}

#[test]
fn a_machine_that_waits_keeps_asking() {
    let (tokens, _) = scan("print 1 + 2;");
    let mut parser = Parser::from(tokens, 0);
    let program = parser.parse();
    let mut machine = Interpreter::new();
    assert!(machine.resolve(&program).is_empty());
    assert!(!machine.supply_number(0));
    machine.interpret(&program);
    let mut request = machine.step();
    while matches!(request, Request::Continue) {
        request = machine.step();
    }
    assert!(matches!(&request, Request::Numeral(text) if text == "1"));
    assert!(matches!(machine.step(), Request::Numeral(text) if text == "1"));
    assert!(machine.supply_number(1.0_f64.to_bits()));
    assert!(!machine.supply_number(5.0_f64.to_bits()));
}
