use lox::interpreter::Interpreter;
use lox::parser::Parser;
use lox::resolver::resolve_variable;
use lox::scanner::scan_tokens;
use lox::environment::Environment;
use lox::error::scan_error;
use lox::exec;
use lox::value::Value;

fn out(src: &str) -> Vec<String> {
    let r = exec(src.to_string());
    assert_eq!(r.err, Vec::<String>::new());
    r.out
}

#[test]
fn adds_numbers() {
    assert_eq!(out("print 1 + 2;"), vec!["3"]);
}

#[test]
fn closure_ignores_later_shadowing() {
    assert_eq!(
        out("var a = \"global\"; { fun show() { print a; } show(); var a = \"block\"; show(); }"),
        vec!["global", "global"]
    );
}

#[test]
fn logical_operators_return_operands() {
    assert_eq!(out("print \"hi\" or 2;"), vec!["hi"]);
    assert_eq!(out("print nil or \"yes\";"), vec!["yes"]);
    assert_eq!(out("print 1 and 2;"), vec!["2"]);
}

#[test]
fn short_circuit_skips_right_operand() {
    assert_eq!(
        out("var x = 0; fun bump() { x = x + 1; return x; } print 1 or bump(); print x; print nil or bump(); print x;"),
        vec!["1", "0", "1", "1"]
    );
    assert_eq!(
        out("var x = 0; fun bump() { x = x + 1; return x; } print false and bump(); print x; print true and bump(); print x;"),
        vec!["false", "0", "1", "1"]
    );
}

#[test]
fn for_loop_counts() {
    assert_eq!(out("for (var i = 0; i < 3; i = i + 1) print i;"), vec!["0", "1", "2"]);
}

#[test]
fn for_loop_equals_its_desugaring() {
    let a = out("var s = 0; for (var i = 0; i < 4; i = i + 1) { s = s + i; print s; }");
    let b = out("var s = 0; { var i = 0; while (i < 4) { { s = s + i; print s; } i = i + 1; } }");
    assert_eq!(a, b);
    assert_eq!(out("fun loopy() { var n = 0; for (;;) { n = n + 1; if (n > 2) return n; } } print loopy();"), vec!["3"]);
}

#[test]
fn function_call_returns() {
    assert_eq!(out("fun add(a,b){return a+b;} print add(2,3);"), vec!["5"]);
}

#[test]
fn undefined_global_is_runtime_error() {
    let r = exec("print undefined;".to_string());
    assert_eq!(r.out, Vec::<String>::new());
    assert_eq!(r.err, vec!["Undefined variable 'undefined'.", "[line 1]"]);
}

#[test]
fn runtime_error_ends_only_its_statement() {
    let r = exec("print 1;\nprint x;\nprint 2;".to_string());
    assert_eq!(r.out, vec!["1", "2"]);
    assert_eq!(r.err, vec!["Undefined variable 'x'.", "[line 2]"]);
}

#[test]
fn empty_source_does_nothing() {
    let r = exec(String::new());
    assert!(r.out.is_empty() && r.err.is_empty());
}

#[test]
fn unterminated_string_is_lex_error() {
    let r = exec("print \"abc;".to_string());
    assert_eq!(r.out, Vec::<String>::new());
    assert_eq!(r.err, vec!["[line 1] Error: Unterminated string."]);
}

#[test]
fn too_many_arguments_is_parse_error() {
    let args: Vec<String> = (0..256).map(|i| i.to_string()).collect();
    let src = format!("fun f() {{}}\nf({});", args.join(", "));
    let r = exec(src);
    assert_eq!(r.out, Vec::<String>::new());
    assert_eq!(r.err, vec!["[line 2] Error at '255': Can't have more than 255 arguments."]);
}

#[test]
fn top_level_return_is_resolve_error() {
    let r = exec("print 1;\nreturn 2;".to_string());
    assert_eq!(r.out, Vec::<String>::new());
    assert_eq!(r.err, vec!["[line 2] Error at 'return': Can't return from top-level code."]);
}

#[test]
fn self_initializer_is_resolve_error() {
    let r = exec("{ var x = x; }".to_string());
    assert_eq!(r.err, vec!["[line 1] Error at 'x': Can't read local variable in its own initializer."]);
}

#[test]
fn division_by_zero_is_runtime_error() {
    let r = exec("print 1 / 0;".to_string());
    assert_eq!(r.err, vec!["divide by zero", "[line 1]"]);
}

#[test]
fn parse_errors_are_all_reported() {
    let r = exec("print ;\nvar = 1;\nprint 3;".to_string());
    assert_eq!(
        r.err,
        vec![
            "[line 1] Error at ';': Expect expression.",
            "[line 2] Error at '=': Expect variable name.",
        ]
    );
    let r = exec("print 1".to_string());
    assert_eq!(r.err, vec!["[line 1] Error at end: Expect ';' after value."]);
}

#[test]
fn calling_a_non_function_fails() {
    let r = exec("\"text\"();".to_string());
    assert_eq!(r.err, vec!["Can only call functions and classes.", "[line 1]"]);
}

#[test]
fn clock_gives_seconds() {
    assert_eq!(out("print clock() > 1000000;"), vec!["true"]);
}

#[test]
fn counters_share_their_closure() {
    assert_eq!(
        out("fun make() { var n = 0; fun inc() { n = n + 1; return n; } return inc; } var c = make(); c(); print c(); var d = make(); print d();"),
        vec!["2", "1"]
    );
}

#[test]
fn print_formats_values() {
    assert_eq!(out("print 10 / 4; print 1 / 3; print -0.5; print \"a\" + \"b\";"), vec!["2.5", "0.3333333333333333", "-0.5", "ab"]);
}

#[test]
fn environment_chains() {
    let mut env = Environment::new();
    env.define(0, "a".to_string(), Value::Bool(true));
    let inner = env.from(0);
    env.define(inner, "b".to_string(), Value::Nil);
    assert!(matches!(env.get(inner, &"a".to_string()), Some(Value::Bool(true))));
    assert!(matches!(env.get_at(inner, 1, &"a".to_string()), Some(Value::Bool(true))));
    assert!(env.get_at(inner, 0, &"a".to_string()).is_none());
    assert!(env.assign(inner, &"a".to_string(), Value::Bool(false)));
    assert!(matches!(env.lookup(0, &"a".to_string()), Some(Value::Bool(false))));
    assert!(env.assign_at(inner, 0, &"b".to_string(), Value::Bool(true)));
    assert!(!env.assign(inner, &"c".to_string(), Value::Nil));
}

#[test]
fn scan_error_format() {
    assert_eq!(scan_error(12, "Unexpected character."), "[line 12] Error: Unexpected character.");
}

#[test]
fn value_operators() {
    let s = Value::String("ab".to_string());
    match s.add(&Value::String("cd".to_string())) {
        Ok(Value::String(t)) => assert_eq!(t, "abcd"),
        _ => panic!("strings concatenate"),
    }
    assert!(Value::Nil.add(&Value::Bool(true)).is_err());
    assert!(!Value::Nil.is_truthy());
    assert!(Value::String(String::new()).is_truthy());
    assert!(Value::Nil.equals(&Value::Nil));
    assert!(!Value::Nil.equals(&Value::Bool(false)));
}

#[test]
fn classes_parse_but_do_not_run() {
    let r = exec("print 1;\nclass Point < Base { init(x) { this.x = x; } sum() { return super.sum() + this.x; } }\nprint 2;".to_string());
    assert_eq!(r.out, vec!["1", "2"]);
    assert_eq!(r.err, vec!["Classes are not supported.", "[line 2]"]);
    let r = exec("var p = nil;\nprint p.x;".to_string());
    assert_eq!(r.err, vec!["Classes are not supported.", "[line 2]"]);
    let r = exec("var p = nil;\np.x = 1;".to_string());
    assert_eq!(r.err, vec!["Classes are not supported.", "[line 2]"]);
    let r = exec("class A { f( { } }".to_string());
    assert_eq!(r.err, vec!["[line 1] Error at '{': Expect parameter name."]);
    let r = exec("print super;".to_string());
    assert_eq!(r.err, vec!["[line 1] Error at ';': Expect '.' after 'super'."]);
}

#[test]
fn numbers_out_of_range() {
    let r = exec("print 9223372036854775807 * 2;".to_string());
    assert_eq!(r.err, vec!["Number out of range.", "[line 1]"]);
    let r = exec("print 99999999999999999999;".to_string());
    assert_eq!(r.err, vec!["[line 1] Error: Number literal out of range."]);
    assert_eq!(out("print 9223372036854775807;"), vec!["9223372036854775807"]);
}

#[test]
fn too_many_parameters_is_parse_error() {
    let params: Vec<String> = (0..256).map(|i| format!("a{}", i)).collect();
    let src = format!("fun f({}) {{}}", params.join(", "));
    let r = exec(src);
    assert_eq!(r.err, vec!["[line 1] Error at 'a255': Can't have more than 255 parameters."]);
}

#[test]
fn far_too_many_arguments_report_once() {
    let args: Vec<String> = (0..300).map(|i| i.to_string()).collect();
    let src = format!("fun f() {{}}\nf({});", args.join(", "));
    let r = exec(src);
    assert_eq!(r.out, Vec::<String>::new());
    assert_eq!(r.err, vec!["[line 2] Error at '255': Can't have more than 255 arguments."]);
}

#[test]
fn static_diagnostics_are_exact() {
    let r = exec("1 = 2;".to_string());
    assert_eq!(r.err, vec!["[line 1] Error at '=': Invalid assignment target."]);
    let r = exec("+;".to_string());
    assert_eq!(r.err, vec!["[line 1] Error at '+': Expect expression."]);
    let r = exec("fun f() {\n  var a = 1;\n  var a = 2;\n  return a;\n}\nreturn 1;".to_string());
    assert_eq!(
        r.err,
        vec![
            "[line 3] Error at 'a': Already a variable with this name in this scope.",
            "[line 6] Error at 'return': Can't return from top-level code.",
        ]
    );
}

#[test]
fn clock_advances_within_a_call() {
    assert_eq!(
        out("fun wait() { var start = clock(); var n = 0; while (clock() - start < 0.02) { n = n + 1; } return clock() - start >= 0.02; } print wait();"),
        vec!["true"]
    );
}

#[test]
fn scope_frames_are_released() {
    let src = "var s = 0; for (var i = 0; i < 1000; i = i + 1) { var x = i; s = s + x; } fun f(a) { return a + 1; } print f(s);";
    let tokens = scan_tokens(src.to_string()).unwrap();
    let ast = Parser::new(tokens).parse().unwrap();
    let depths = resolve_variable(&ast).unwrap();
    let mut run = Interpreter::new();
    let errors = run.interpret(&ast, &depths);
    assert!(errors.is_empty());
    assert_eq!(run.out, vec!["499501".to_string()]);
    assert_eq!(run.environment.frames.len(), 1);
}
