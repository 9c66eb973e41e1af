//! The parts that a running program rests on: values, numbers, scopes,
//! classes, tables and the text of reports.
use rlox::environment_tree::EnvironmentTree;
use rlox::interpreter::{Arguments, Control, Frame, Interpreter, Request};
use rlox::lox_callable;
use rlox::lox_callable::{arity, arity_message, class_stringify, find_method, LoxClass};
use rlox::lox_instance::LoxInstance;
use rlox::number::{negate, not_a_number, number_at_most, number_less, numbers_equal};
use rlox::parser::Parser;
use rlox::report::{error, error_with_token, report, runtime_error, Diagnostic, Place, RuntimeError};
use rlox::scanner::scan;
use rlox::stmt::{Class, Stmt};
use rlox::table::Table;
use rlox::text::{chars_of, decimal, push_decimal, reads, text_of};
use rlox::token::{Literal, Token, TokenType};
use rlox::value::{LoxCallable, LoxFunction, Value};

fn token(kind: TokenType, lexeme: &str, line: usize) -> Token {
    Token::from(kind, lexeme.to_string(), Literal::NoneLiteral, line, 0)
}

fn name(lexeme: &str) -> Token {
    token(TokenType::Identifier, lexeme, 1)
}

fn number(value: f64) -> Value<'static> {
    Value::Number(value.to_bits())
}

#[test]
fn reports_are_written_as_lines() {
    assert_eq!(report(3, " at 'x'", "Bad."), "[line 3] Error at 'x': Bad.");
    assert_eq!(error(12, "Unexpected character."), "[line 12] Error: Unexpected character.");
    assert_eq!(error(0, ""), "[line 0] Error: ");
    assert_eq!(
        error_with_token(&token(TokenType::Eof, "", 7), "Expect expression."),
        "[line 7] Error at end: Expect expression."
    );
    assert_eq!(
        error_with_token(&token(TokenType::Plus, "+", 1), "Expect expression."),
        "[line 1] Error at '+': Expect expression."
    );
    let failure = RuntimeError { message: "Operands must be numbers.".to_string(), line: 4 };
    assert_eq!(runtime_error(&failure), "Operands must be numbers.\n[line 4]");
}

#[test]
fn diagnostics_render_their_place() {
    let at_end = Diagnostic::at_token(&token(TokenType::Eof, "", 2), "Expect ';' after value.");
    assert!(matches!(at_end.place, Place::AtEnd));
    assert_eq!(at_end.render(), "[line 2] Error at end: Expect ';' after value.");
    let at_word = Diagnostic::at_token(&name("abc"), "Expect ';' after value.");
    assert!(matches!(&at_word.place, Place::At(text) if text == "abc"));
    assert_eq!(at_word.clone().render(), "[line 1] Error at 'abc': Expect ';' after value.");
    let nowhere = Diagnostic { line: 9, place: Place::Nowhere, message: "Unexpected character." };
    assert_eq!(nowhere.render(), "[line 9] Error: Unexpected character.");
}

#[test]
fn decimal_numerals() {
    assert_eq!(decimal(0), "0");
    assert_eq!(decimal(7), "7");
    assert_eq!(decimal(10), "10");
    assert_eq!(decimal(1203), "1203");
    assert_eq!(decimal(usize::MAX), usize::MAX.to_string());
    let mut text = "n=".to_string();
    push_decimal(&mut text, 42);
    assert_eq!(text, "n=42");
}

#[test]
fn text_helpers() {
    assert_eq!(chars_of("aé𝄞"), vec!['a', 'é', '𝄞']);
    assert_eq!(chars_of(""), Vec::<char>::new());
    let chars = chars_of("hello");
    assert_eq!(text_of(&chars, 1, 4), "ell");
    assert_eq!(text_of(&chars, 2, 2), "");
    assert_eq!(text_of(&chars, 0, 5), "hello");
    assert!(reads(&"init".to_string(), "init"));
    assert!(!reads(&"init".to_string(), "initial"));
    assert!(!reads(&"".to_string(), "init"));
}

#[test]
fn tables_keep_the_last_value_of_a_key() {
    let mut table: Table<u32> = Table::new();
    assert!(!table.contains_key(&"a".to_string()));
    assert_eq!(table.get(&"a".to_string()), None);
    table.insert("a".to_string(), 1);
    table.insert("b".to_string(), 2);
    table.insert("a".to_string(), 3);
    assert_eq!(table.get(&"a".to_string()), Some(&3));
    assert_eq!(table.get(&"b".to_string()), Some(&2));
    assert!(table.contains_key(&"b".to_string()));
    assert!(!table.contains_key(&"c".to_string()));
    assert!(!table.contains_key(&"".to_string()));
}

#[test]
fn doubles_by_their_bits() {
    let nan = f64::NAN.to_bits();
    let values = [0.0, -0.0, 1.0, -1.0, 2.5, -2.5, 1e300, -1e300, 5e-324, f64::INFINITY, f64::NEG_INFINITY];
    for a in values {
        for b in values {
            assert_eq!(numbers_equal(a.to_bits(), b.to_bits()), a == b, "{} == {}", a, b);
            assert_eq!(number_less(a.to_bits(), b.to_bits()), a < b, "{} < {}", a, b);
            assert_eq!(number_at_most(a.to_bits(), b.to_bits()), a <= b, "{} <= {}", a, b);
        }
        assert_eq!(negate(a.to_bits()), (-a).to_bits());
        assert!(!not_a_number(a.to_bits()));
        assert!(!numbers_equal(a.to_bits(), nan));
        assert!(!number_less(a.to_bits(), nan));
        assert!(!number_less(nan, a.to_bits()));
        assert!(!number_at_most(nan, a.to_bits()));
    }
    assert!(not_a_number(nan));
    assert!(not_a_number((-f64::NAN).to_bits()));
    assert!(!numbers_equal(nan, nan));
    assert_eq!(negate(nan), (-f64::NAN).to_bits());
    assert_eq!(negate(3.0_f64.to_bits()), (-3.0_f64).to_bits());
}

#[test]
fn truthiness_and_equality_of_values() {
    assert!(!Value::Nil.is_truthy());
    assert!(!Value::Bool(false).is_truthy());
    assert!(Value::Bool(true).is_truthy());
    assert!(number(0.0).is_truthy());
    assert!(Value::Str(String::new()).is_truthy());
    assert!(Value::Callable(LoxCallable::Clock).is_truthy());
    assert!(Value::Instance(0).is_truthy());

    assert!(Value::Nil.is_equal(&Value::Nil));
    assert!(number(1.5).is_equal(&number(1.5)));
    assert!(number(0.0).is_equal(&number(-0.0)));
    assert!(!number(f64::NAN).is_equal(&number(f64::NAN)));
    assert!(!number(1.0).is_equal(&number(2.0)));
    assert!(Value::Bool(true).is_equal(&Value::Bool(true)));
    assert!(!Value::Bool(true).is_equal(&Value::Bool(false)));
    assert!(Value::Str("a".to_string()).is_equal(&Value::Str("a".to_string())));
    assert!(!Value::Str("a".to_string()).is_equal(&Value::Str("b".to_string())));
    assert!(!Value::Nil.is_equal(&Value::Bool(false)));
    assert!(!number(1.0).is_equal(&Value::Bool(true)));
    assert!(!Value::Str("1".to_string()).is_equal(&number(1.0)));
    assert!(!Value::Instance(1).is_equal(&Value::Instance(1)));
    assert!(!Value::Callable(LoxCallable::Clock).is_equal(&Value::Callable(LoxCallable::Clock)));
}

#[test]
fn wrapping_and_unwrapping_values() {
    assert!(matches!(Value::Nil.negate_and_wrap(), Value::Bool(true)));
    assert!(matches!(number(1.0).negate_and_wrap(), Value::Bool(false)));
    assert!(matches!(Value::wrap_bool(true), Value::Bool(true)));
    assert_eq!(Value::wrap_float(5).unwrap_float(), 5);
    assert_eq!(Value::wrap_string_literal("s".to_string()).unwrap_str_literal(), "s");
    assert!(Value::wrap_float(5).is_float());
    assert!(!Value::wrap_float(5).is_string());
    assert!(Value::wrap_string_literal(String::new()).is_string());
    assert!(!Value::Nil.is_float());
    assert!(matches!(Value::Str("x".to_string()).clone(), Value::Str(text) if text == "x"));
    assert!(matches!(Value::Instance(3).clone(), Value::Instance(3)));
}

#[test]
fn a_new_tree_has_an_empty_root() {
    let tree = EnvironmentTree::new();
    assert_eq!(tree.nodes.len(), 1);
    assert_eq!(tree.get_current(), 0);
    assert!(tree.nodes[0].parent.is_none());
    assert!(tree.reaches(0));
    assert!(!tree.reaches(1));
    assert_eq!(tree.get_step_for_id(0), None);
    assert!(!tree.holds_at(&"a".to_string(), 0));
}

#[test]
fn globals_are_read_and_assigned_without_a_depth() {
    let mut tree = EnvironmentTree::new();
    tree.define_global("a".to_string(), number(1.0));
    assert!(tree.get(&name("a"), 0).unwrap().is_equal(&number(1.0)));
    let missing = tree.get(&token(TokenType::Identifier, "b", 5), 0).unwrap_err();
    assert_eq!(missing.message, "Undefined variable 'b'.");
    assert_eq!(missing.line, 5);
    assert!(tree.assign(&name("a"), number(2.0), 1).is_ok());
    assert!(tree.get(&name("a"), 0).unwrap().is_equal(&number(2.0)));
    let missing = tree.assign(&name("b"), number(2.0), 1).unwrap_err();
    assert_eq!(missing.message, "Undefined variable 'b'.");
    assert!(!tree.nodes[0].environment.contains_key(&"b".to_string()));
    tree.define_current("a".to_string(), Value::Nil);
    assert!(matches!(tree.get(&name("a"), 0), Ok(Value::Nil)));
}

#[test]
fn resolved_references_walk_exactly_their_depth() {
    let mut tree = EnvironmentTree::new();
    tree.define_global("a".to_string(), Value::Str("global".to_string()));
    let outer = tree.new_environment_node(Some(0));
    assert_eq!(outer, 1);
    tree.set_current(outer);
    tree.define_current("a".to_string(), Value::Str("outer".to_string()));
    let inner = tree.new_environment_node(Some(outer));
    tree.set_current(inner);
    tree.define_current("b".to_string(), Value::Str("inner".to_string()));
    tree.set_step_for_id(10, 0);
    tree.set_step_for_id(11, 1);
    tree.set_step_for_id(12, 2);
    assert_eq!(tree.get_step_for_id(11), Some(1));
    assert!(tree.is_readable(&"b".to_string(), 10));
    assert!(!tree.is_readable(&"a".to_string(), 10));
    assert!(tree.is_readable(&"a".to_string(), 11));
    assert!(tree.is_readable(&"a".to_string(), 12));
    assert!(tree.is_readable(&"zzz".to_string(), 99));
    assert!(matches!(tree.get(&name("b"), 10), Ok(Value::Str(text)) if text == "inner"));
    assert!(matches!(tree.get(&name("a"), 11), Ok(Value::Str(text)) if text == "outer"));
    assert!(matches!(tree.get(&name("a"), 12), Ok(Value::Str(text)) if text == "global"));
    assert!(matches!(tree.get(&name("a"), 99), Ok(Value::Str(text)) if text == "global"));
    assert!(matches!(tree.get_at(&"a".to_string(), 1), Value::Str(text) if text == "outer"));
    assert!(tree.holds_at(&"a".to_string(), 2));
    assert!(!tree.holds_at(&"b".to_string(), 1));
    assert!(tree.reaches(2));
    assert!(!tree.reaches(3));

    assert!(tree.is_assignable(11));
    assert!(tree.assign(&name("a"), Value::Str("changed".to_string()), 11).is_ok());
    assert!(matches!(tree.get(&name("a"), 11), Ok(Value::Str(text)) if text == "changed"));
    assert!(matches!(tree.get(&name("a"), 12), Ok(Value::Str(text)) if text == "global"));
    tree.set_step_for_id(13, 3);
    assert!(!tree.is_assignable(13));
}

#[test]
fn leaving_an_inner_scope_gives_the_outer_binding_back() {
    let mut tree = EnvironmentTree::new();
    let outer = tree.new_environment_node(Some(0));
    tree.set_current(outer);
    tree.define_current("a".to_string(), number(1.0));
    let inner = tree.new_environment_node(Some(outer));
    tree.set_current(inner);
    tree.define_current("a".to_string(), number(2.0));
    assert!(tree.get_at(&"a".to_string(), 0).is_equal(&number(2.0)));
    tree.set_current(outer);
    assert!(tree.get_at(&"a".to_string(), 0).is_equal(&number(1.0)));
}

#[test]
fn a_call_scope_sees_what_the_closure_holds_now() {
    let mut tree = EnvironmentTree::new();
    let closure = tree.new_environment_node(Some(0));
    tree.bind(closure, "i".to_string(), number(0.0));
    let first = tree.new_environment_node(Some(closure));
    tree.set_current(first);
    assert!(tree.get_at(&"i".to_string(), 1).is_equal(&number(0.0)));
    tree.bind(closure, "i".to_string(), number(1.0));
    let second = tree.new_environment_node(Some(closure));
    tree.set_current(second);
    assert!(tree.get_at(&"i".to_string(), 1).is_equal(&number(1.0)));
    tree.set_current(first);
    assert!(tree.get_at(&"i".to_string(), 1).is_equal(&number(1.0)));
}

#[test]
fn class_names_are_assigned_in_the_current_scope_or_its_parent() {
    let mut tree = EnvironmentTree::new();
    tree.define_global("A".to_string(), Value::Nil);
    let child = tree.new_environment_node(Some(0));
    let grandchild = tree.new_environment_node(Some(child));
    tree.set_current(child);
    assert!(tree.assign_cur_or_par(&name("A"), number(1.0)).is_ok());
    assert!(tree.nodes[0].environment.get(&"A".to_string()).unwrap().is_equal(&number(1.0)));
    tree.define_current("A".to_string(), Value::Nil);
    assert!(tree.assign_cur_or_par(&name("A"), number(2.0)).is_ok());
    assert!(tree.nodes[child].environment.get(&"A".to_string()).unwrap().is_equal(&number(2.0)));
    assert!(tree.nodes[0].environment.get(&"A".to_string()).unwrap().is_equal(&number(1.0)));
    let missing = tree.assign_cur_or_par(&name("B"), Value::Nil).unwrap_err();
    assert_eq!(missing.message, "Undefined variable 'B'.");
    tree.set_current(grandchild);
    tree.bind(child, "C".to_string(), Value::Nil);
    tree.define_global("D".to_string(), Value::Nil);
    assert!(tree.assign_cur_or_par(&name("C"), number(3.0)).is_ok());
    assert!(tree.assign_cur_or_par(&name("D"), number(3.0)).is_err());
}

fn classes_of(source: &str) -> Vec<Stmt> {
    let (tokens, _) = scan(source);
    let mut parser = Parser::from(tokens, 0);
    let statements = parser.parse();
    assert!(parser.errors.is_empty());
    statements
}

fn declaration(statement: &Stmt) -> &Class {
    match statement {
        Stmt::ClassStmt { declaration } => declaration,
        _ => panic!("a class is expected"),
    }
}

#[test]
fn methods_are_found_from_the_class_upwards() {
    let statements = classes_of(
        "class A { init(a, b) {} m() {} n() {} } class B < A { m(x) {} } class C < B {} class D {}",
    );
    let mut classes: Vec<LoxClass> = Vec::new();
    for (index, statement) in statements.iter().enumerate() {
        let class = declaration(statement);
        let mut methods = Table::new();
        for method in &class.methods {
            methods.insert(
                method.name.lexeme.clone(),
                LoxFunction {
                    declaration: method,
                    closure: index,
                    is_initializer: method.name.lexeme == "init",
                },
            );
        }
        let superclass = if index == 1 || index == 2 { Some(index - 1) } else { None };
        classes.push(LoxClass { class, superclass, methods });
    }
    let m = "m".to_string();
    let n = "n".to_string();
    assert_eq!(find_method(&classes, 0, &m).unwrap().closure, 0);
    assert_eq!(find_method(&classes, 1, &m).unwrap().closure, 1);
    assert_eq!(find_method(&classes, 2, &m).unwrap().closure, 1);
    assert_eq!(find_method(&classes, 2, &n).unwrap().closure, 0);
    assert!(find_method(&classes, 2, &"init".to_string()).unwrap().is_initializer);
    assert!(!find_method(&classes, 2, &m).unwrap().is_initializer);
    assert!(find_method(&classes, 3, &m).is_none());
    assert!(find_method(&classes, 2, &"o".to_string()).is_none());
    assert!(find_method(&classes, 4, &m).is_none());

    assert_eq!(arity(&classes, &LoxCallable::Clock), 0);
    assert_eq!(arity(&classes, &LoxCallable::UserClass(0)), 2);
    assert_eq!(arity(&classes, &LoxCallable::UserClass(2)), 2);
    assert_eq!(arity(&classes, &LoxCallable::UserClass(3)), 0);
    let method = find_method(&classes, 1, &m).unwrap();
    assert_eq!(arity(&classes, &LoxCallable::UserFunction(method)), 1);

    assert_eq!(lox_callable::stringify(&classes, &LoxCallable::Clock), "<native fn>");
    assert_eq!(lox_callable::stringify(&classes, &LoxCallable::UserFunction(method)), "<fn m>");
    assert_eq!(lox_callable::stringify(&classes, &LoxCallable::UserClass(0)), "<cls A>");
    assert_eq!(
        lox_callable::stringify(&classes, &LoxCallable::UserClass(2)),
        "<cls C> extends <cls B> extends <cls A>"
    );
    assert_eq!(class_stringify(&classes, 3), "<cls D>");
    assert_eq!(class_stringify(&classes, 9), "<cls>");
}

#[test]
fn arity_messages() {
    assert_eq!(arity_message(2, 1), "Expected 2 arguments but got 1.");
    assert_eq!(arity_message(0, 255), "Expected 0 arguments but got 255.");
}

#[test]
fn instances_keep_their_fields() {
    let mut instance = LoxInstance::new(4);
    assert_eq!(instance.class, 4);
    assert!(instance.get(&"f".to_string()).is_none());
    instance.set("f".to_string(), number(1.0));
    instance.set("g".to_string(), Value::Nil);
    instance.set("f".to_string(), number(2.0));
    assert!(instance.get(&"f".to_string()).unwrap().is_equal(&number(2.0)));
    assert!(matches!(instance.get(&"g".to_string()), Some(Value::Nil)));
    assert_eq!(instance.class, 4);
}

#[test]
fn arguments_come_out_in_their_order() {
    assert!(Arguments::Empty.into_vec().is_empty());
    let one = Arguments::More { value: number(1.0), rest: Box::new(Arguments::Empty) };
    let two = Arguments::More { value: number(2.0), rest: Box::new(one) };
    let three = Arguments::More { value: Value::Nil, rest: Box::new(two) };
    let values = three.into_vec();
    assert_eq!(values.len(), 3);
    assert!(values[0].is_equal(&number(1.0)));
    assert!(values[1].is_equal(&number(2.0)));
    assert!(matches!(values[2], Value::Nil));
}

#[test]
fn a_new_machine_has_the_clock_and_nothing_to_do() {
    let mut machine = Interpreter::new();
    assert!(machine.is_halted());
    assert!(machine.frames.is_empty());
    assert!(machine.store.classes.is_empty());
    assert!(machine.store.instances.is_empty());
    assert_eq!(machine.store.env.nodes.len(), 1);
    assert!(matches!(
        machine.store.env.nodes[0].environment.get(&"clock".to_string()),
        Some(Value::Callable(LoxCallable::Clock))
    ));
    assert!(matches!(machine.step(), Request::Finished));
    assert!(machine.is_halted());
    assert!(!machine.supply_number(1));
}

#[test]
fn a_program_is_run_from_the_global_scope() {
    let statements = classes_of("{ var a = 1; { print a; } }");
    let mut machine = Interpreter::new();
    assert!(machine.resolve(&statements).is_empty());
    machine.interpret(&statements);
    assert!(!machine.is_halted());
    assert!(matches!(machine.control, Control::Deliver(Value::Nil)));
    assert_eq!(machine.frames.len(), 1);
    assert!(matches!(machine.frames[0], Frame::Sequence { statements: _, next: 0 }));
    let mut deepest = 0;
    let mut request = machine.step();
    while !matches!(request, Request::Numeral(_)) {
        deepest = deepest.max(machine.store.env.get_current());
        request = machine.step();
    }
    assert_eq!(machine.store.env.get_current(), 1);
    machine.interpret(&statements);
    assert_eq!(machine.store.env.get_current(), 0);
    assert_eq!(machine.frames.len(), 1);
    assert_eq!(deepest, 1);
}

#[test]
fn a_failure_brings_the_machine_back_to_the_global_scope() {
    let statements = classes_of("fun f() { { var a; a(); } } f();");
    let mut machine = Interpreter::new();
    assert!(machine.resolve(&statements).is_empty());
    machine.interpret(&statements);
    let mut request = machine.step();
    while matches!(request, Request::Continue) {
        request = machine.step();
    }
    match request {
        Request::Failed(error) => {
            assert_eq!(error.message, "Can only call functions and classes.");
            assert_eq!(error.line, 1);
        }
        _ => panic!("a failure is expected"),
    }
    assert!(machine.is_halted());
    assert!(machine.frames.is_empty());
    assert_eq!(machine.store.env.get_current(), 0);
    assert!(machine.store.env.nodes.len() > 1);
    assert!(matches!(machine.step(), Request::Finished));
}
