use lox::exec;

fn run(src: &str) -> (Vec<String>, Vec<String>) {
    let r = exec(src.to_string());
    (r.out, r.err)
}

fn expect_out(src: &str, out: &[&str]) {
    let (o, e) = run(src);
    assert_eq!(e, Vec::<String>::new(), "no diagnostics for {:?}", src);
    assert_eq!(o, out.iter().map(|s| s.to_string()).collect::<Vec<String>>(), "output of {:?}", src);
}

fn expect_err(src: &str, out: &[&str], err: &[&str]) {
    let (o, e) = run(src);
    assert_eq!(e, err.iter().map(|s| s.to_string()).collect::<Vec<String>>(), "diagnostics of {:?}", src);
    assert_eq!(o, out.iter().map(|s| s.to_string()).collect::<Vec<String>>(), "output of {:?}", src);
}

fn assignment_cases() {
    expect_out(
        "var a = \"a\";\nvar b = \"b\";\nvar c = \"c\";\na = b = c;\nprint a;\nprint b;\nprint c;\n",
        &["c", "c", "c"],
    );
    expect_out(
        "var a = \"before\";\nprint a;\na = \"after\";\nprint a;\nprint a = \"arg\";\nprint a;\n",
        &["before", "after", "arg", "arg"],
    );
    expect_err(
        "var a = \"a\";\n(a) = \"value\";\n",
        &[],
        &["[line 2] Error at '=': Invalid assignment target."],
    );
    expect_err(
        "var a = \"a\";\nvar b = \"b\";\na + b = \"value\";\n",
        &[],
        &["[line 3] Error at '=': Invalid assignment target."],
    );
    expect_out(
        "{\n  var a = \"before\";\n  print a;\n  a = \"after\";\n  print a;\n  print a = \"arg\";\n  print a;\n}\n",
        &["before", "after", "arg", "arg"],
    );
    expect_err(
        "var a = \"a\";\n!a = \"value\";\n",
        &[],
        &["[line 2] Error at '=': Invalid assignment target."],
    );
    expect_out("var a = \"before\";\nvar c = a = \"var\";\nprint a;\nprint c;\n", &["var", "var"]);
    expect_err("unknown = \"what\";\n", &[], &["Undefined variable 'unknown'.", "[line 1]"]);
}

fn block_cases() {
    expect_out("{}\nif (true) {}\nif (false) {} else {}\nprint \"ok\";\n", &["ok"]);
    expect_out(
        "var a = \"outer\";\n{\n  var a = \"inner\";\n  print a;\n}\nprint a;\n",
        &["inner", "outer"],
    );
}

fn bool_cases() {
    expect_out(
        "print true == true;\nprint true == false;\nprint false == true;\nprint false == false;\nprint true == 1;\nprint false == 0;\nprint true == \"true\";\nprint false == \"false\";\nprint false == \"\";\n",
        &["true", "false", "false", "true", "false", "false", "false", "false", "false"],
    );
    expect_out(
        "print true != true;\nprint true != false;\nprint false != true;\nprint false != false;\nprint true != 1;\n",
        &["false", "true", "true", "false", "true"],
    );
    expect_out("print !true;\nprint !false;\nprint !!true;\n", &["false", "true", "true"]);
}

fn comment_cases() {
    expect_out("print \"ok\";\n// comment", &["ok"]);
    expect_out("// comment", &[]);
    expect_out(
        "// Unicode characters are allowed in comments.\n//\n// Latin 1 Supplement: \u{a3}\u{a7}\u{b6}\u{dc}\u{de}\nprint \"ok\";\n",
        &["ok"],
    );
}

fn expression_cases() {
    expect_out("print (5 - (3 - 1)) + -1;\n", &["2"]);
}

fn logical_operator_cases() {
    expect_out(
        "print false and 1;\nprint true and 1;\nprint 1 and 2 and false;\nprint 1 and true;\nprint 1 and 2 and 3;\nvar a = \"before\";\nvar b = \"before\";\n(a = true) and\n    (b = false) and\n    (a = \"bad\");\nprint a;\nprint b;\n",
        &["false", "1", "false", "true", "3", "true", "false"],
    );
    expect_out(
        "print false and \"bad\";\nprint nil and \"bad\";\nprint true and \"ok\";\nprint 0 and \"ok\";\nprint \"\" and \"ok\";\n",
        &["false", "nil", "ok", "ok", "ok"],
    );
    expect_out(
        "print 1 or true;\nprint false or 1;\nprint false or false or true;\nprint false or false;\nprint false or false or false;\nvar a = \"before\";\nvar b = \"before\";\n(a = false) or\n    (b = true) or\n    (a = \"bad\");\nprint a;\nprint b;\n",
        &["1", "1", "true", "false", "false", "false", "true"],
    );
    expect_out(
        "print false or \"ok\";\nprint nil or \"ok\";\nprint true or \"ok\";\nprint 0 or \"ok\";\nprint \"s\" or \"ok\";\n",
        &["ok", "ok", "true", "0", "s"],
    );
}

fn nil_cases() {
    expect_out("print nil;\n", &["nil"]);
}

fn operator_cases() {
    expect_out("print 123 + 456;\nprint \"str\" + \"ing\";\n", &["579", "string"]);
    expect_err(
        "true + nil;\n",
        &[],
        &["Operands must be two numbers or two strings.", "[line 1]"],
    );
    expect_out(
        "print 1 < 2;\nprint 2 < 2;\nprint 2 < 1;\nprint 1 <= 2;\nprint 2 <= 2;\nprint 2 <= 1;\nprint 1 > 2;\nprint 2 > 2;\nprint 2 > 1;\nprint 1 >= 2;\nprint 2 >= 2;\nprint 2 >= 1;\nprint 0 < -0;\nprint -0 < 0;\nprint 0 > -0;\nprint -0 > 0;\nprint 0 <= -0;\nprint -0 <= 0;\nprint 0 >= -0;\nprint -0 >= 0;\n",
        &[
            "true", "false", "false", "true", "true", "false", "false", "false", "true", "false",
            "true", "true", "false", "false", "false", "false", "true", "true", "true", "true",
        ],
    );
    expect_out("print 8 / 2;\nprint 12.34 / 12.34;\n", &["4", "1"]);
    expect_out(
        "print nil == nil;\nprint true == true;\nprint true == false;\nprint 1 == 1;\nprint 1 == 2;\nprint \"str\" == \"str\";\nprint \"str\" == \"ing\";\nprint nil == false;\nprint false == 0;\nprint 0 == \"0\";\n",
        &["true", "true", "false", "true", "false", "true", "false", "false", "false", "false"],
    );
    expect_out("print 5 * 3;\nprint 12.34 * 0.3;\n", &["15", "3.702"]);
    expect_out("print -(3);\nprint --(3);\nprint ---(3);\n", &["-3", "3", "-3"]);
    expect_err("-\"s\";\n", &[], &["Operand must be a number.", "[line 1]"]);
    expect_out("print 4 - 3;\nprint 1.2 - 1.2;\n", &["1", "0"]);
    expect_err("\"1\" - 1;\n", &[], &["Operands must be numbers.", "[line 1]"]);
    expect_err("1 < \"1\";\n", &[], &["Operands must be numbers.", "[line 1]"]);
    expect_out(
        "print nil != nil;\nprint true != true;\nprint true != false;\nprint 1 != 1;\nprint 1 != 2;\nprint \"str\" != \"str\";\nprint \"str\" != \"ing\";\nprint nil != false;\nprint false != 0;\nprint 0 != \"0\";\n",
        &["false", "false", "true", "false", "true", "false", "true", "true", "true", "true"],
    );
}

fn print_cases() {
    expect_err("print;\n", &[], &["[line 1] Error at ';': Expect expression."]);
}

fn string_cases() {
    expect_out(
        "print \"(\" + \"\" + \")\";\nprint \"a string\";\nprint \"A~\u{b6}\u{de}\u{950}\u{b83}\";\n",
        &["()", "a string", "A~\u{b6}\u{de}\u{950}\u{b83}"],
    );
    expect_out("var a = \"1\n2\n3\";\nprint a;\n", &["1\n2\n3"]);
    expect_err(
        "var a = \"1\n2\n3\n\";\nerr;\n",
        &[],
        &["Undefined variable 'err'.", "[line 5]"],
    );
    expect_err("\"this string has no close quote", &[], &["[line 1] Error: Unterminated string."]);
}

fn variable_cases() {
    expect_out(
        "{\n  var a = \"outer\";\n  {\n    print a;\n  }\n}\n",
        &["outer"],
    );
    expect_out("var a = \"1\";\nvar a;\nprint a;\n", &["nil"]);
    expect_out("var a = \"1\";\nvar a = \"2\";\nprint a;\n", &["2"]);
    expect_out(
        "{\n  var a = \"first\";\n  print a;\n}\n{\n  var a = \"second\";\n  print a;\n}\n",
        &["first", "second"],
    );
    expect_out(
        "{\n  var a = \"local\";\n  {\n    var a = \"shadow\";\n    print a;\n  }\n  print a;\n}\n",
        &["shadow", "local"],
    );
    expect_out(
        "var a = \"global\";\n{\n  var a = \"shadow\";\n  print a;\n}\nprint a;\n",
        &["shadow", "global"],
    );
    expect_err("print notDefined;\n", &[], &["Undefined variable 'notDefined'.", "[line 1]"]);
    expect_err(
        "{\n  print notDefined;\n}\n",
        &[],
        &["Undefined variable 'notDefined'.", "[line 2]"],
    );
    expect_out("var a;\nprint a;\n", &["nil"]);
    expect_out("if (false) {\n  print notDefined;\n}\nprint \"ok\";\n", &["ok"]);
    expect_err(
        "var false = \"value\";\n",
        &[],
        &["[line 1] Error at 'false': Expect variable name."],
    );
    expect_out("var a = \"value\";\nvar a = a;\nprint a;\n", &["value"]);
    expect_err(
        "var a = \"outer\";\n{\n  var a = a;\n}\n",
        &[],
        &["[line 3] Error at 'a': Can't read local variable in its own initializer."],
    );
    expect_err(
        "var nil = \"value\";\n",
        &[],
        &["[line 1] Error at 'nil': Expect variable name."],
    );
    expect_err(
        "{\n  var a = \"value\";\n  var a = \"other\";\n}\n",
        &[],
        &["[line 3] Error at 'a': Already a variable with this name in this scope."],
    );
    expect_err(
        "fun foo(a) {\n  var a;\n}\n",
        &[],
        &["[line 2] Error at 'a': Already a variable with this name in this scope."],
    );
    expect_err(
        "fun foo(arg,\n        arg) {\n  \"body\";\n}\n",
        &[],
        &["[line 2] Error at 'arg': Already a variable with this name in this scope."],
    );
}

fn function_cases() {
    expect_err(
        "fun f() 123;\n",
        &[],
        &["[line 1] Error at '123': Expect '{' before function body."],
    );
    expect_out("fun f() {}\nprint f();\n", &["nil"]);
    expect_err(
        "fun f(a, b) {\n  print a;\n  print b;\n}\n\nf(1, 2, 3, 4);\n",
        &[],
        &["Expected 2 arguments but got 4.", "[line 6]"],
    );
    expect_out(
        "{\n  fun fib(n) {\n    if (n < 2) return n;\n    return fib(n - 1) + fib(n - 2);\n  }\n\n  print fib(8);\n}\n",
        &["21"],
    );
    expect_err(
        "fun f(a, b) {}\n\nf(1);\n",
        &[],
        &["Expected 2 arguments but got 1.", "[line 3]"],
    );
    expect_out(
        "fun isEven(n) {\n  if (n == 0) return true;\n  return isOdd(n - 1);\n}\n\nfun isOdd(n) {\n  if (n == 0) return false;\n  return isEven(n - 1);\n}\n\nprint isEven(10);\nprint isOdd(7);\n",
        &["true", "true"],
    );
    expect_out(
        "fun f0() { return 0; }\nprint f0();\nfun f1(a) { return a; }\nprint f1(1);\nfun f2(a, b) { return a + b; }\nprint f2(1, 2);\nfun f3(a, b, c) { return a + b + c; }\nprint f3(1, 2, 3);\n",
        &["0", "1", "3", "6"],
    );
    expect_out("fun foo() {}\nprint foo;\nprint clock;\n", &["<fn foo>", "<native fn>"]);
    expect_out(
        "fun fib(n) {\n  if (n < 2) return n;\n  return fib(n - 1) + fib(n - 2);\n}\n\nprint fib(8);\n",
        &["21"],
    );
}

fn precedence_cases() {
    expect_out(
        "print 2 + 3 * 4;\nprint 20 - 3 * 4;\nprint 2 + 6 / 3;\nprint 2 - 6 / 3;\nprint false == 2 < 1;\nprint false == 1 > 2;\nprint false == 2 <= 1;\nprint false == 1 >= 2;\nprint 1 - 1;\nprint 1 -1;\nprint 1- 1;\nprint 1-1;\nprint (2 * (6 - (2 + 2)));\n",
        &["14", "8", "4", "0", "true", "true", "true", "true", "0", "0", "0", "0", "4"],
    );
}

fn empty_file_case() {
    expect_out("", &[]);
}

#[test]
fn print() {
    let (out, err) = run("print 1 + 100;");
    assert_eq!(err, Vec::<String>::new());
    assert_eq!(out, vec!["101".to_string()]);
}

#[test]
fn integration_test() {
    assignment_cases();
    block_cases();
    bool_cases();
    comment_cases();
    expression_cases();
    logical_operator_cases();
    nil_cases();
    operator_cases();
    print_cases();
    string_cases();
    variable_cases();
    empty_file_case();
    precedence_cases();
}

#[test]
fn assignment_test() {
    assignment_cases();
    empty_file_case();
    precedence_cases();
}

#[test]
fn block_test() {
    block_cases();
    empty_file_case();
    precedence_cases();
}

#[test]
fn bool_test() {
    bool_cases();
    empty_file_case();
    precedence_cases();
}

#[test]
fn comment_test() {
    comment_cases();
    empty_file_case();
    precedence_cases();
}

#[test]
fn expression_test() {
    expression_cases();
    empty_file_case();
    precedence_cases();
}

#[test]
fn logical_operator_test() {
    logical_operator_cases();
    empty_file_case();
    precedence_cases();
}

#[test]
fn nil_test() {
    nil_cases();
    empty_file_case();
    precedence_cases();
}

#[test]
fn operator_test() {
    operator_cases();
    empty_file_case();
    precedence_cases();
}

#[test]
fn print_test() {
    block_cases();
    empty_file_case();
    precedence_cases();
}

#[test]
fn string_test() {
    string_cases();
    empty_file_case();
    precedence_cases();
}

#[test]
fn variable_test() {
    variable_cases();
    empty_file_case();
    precedence_cases();
}

#[test]
fn function_test() {
    function_cases();
    empty_file_case();
    precedence_cases();
}
