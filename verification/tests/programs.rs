use linger::{interp_to_buffer, interp_with_limit};

fn run(source: &str) -> (Result<String, String>, String) {
    interp_with_limit(source, 10_000)
}

fn printed(source: &str) -> String {
    let (result, output) = run(source);
    assert!(result.is_ok(), "{:?}", result);
    output
}

fn value(source: &str) -> String {
    run(source).0.unwrap()
}

fn failure(source: &str) -> String {
    run(source).0.unwrap_err()
}

#[test]
fn precedence_of_multiplication_over_addition() {
    assert_eq!(printed("proc main() { print(2 + 3 * 4); }"), "14");
    assert_eq!(value("proc main() { return 2 + 3 * 4; }"), "14");
    assert_eq!(value("proc main() { return (2 + 3) * 4; }"), "20");
}

#[test]
fn precedence_of_comparison_over_logic() {
    assert_eq!(printed("proc main() { print(1 < 2 && 2 < 3); }"), "true");
    assert_eq!(printed("proc main() { print(1 > 2 || 2 <= 2); }"), "true");
    assert_eq!(printed("proc main() { print(1 == 1 && 2 != 2); }"), "false");
}

#[test]
fn logical_and_does_not_evaluate_its_right_side_after_false() {
    assert_eq!(printed("proc main() { false && print(\"x\"); }"), "");
    assert_eq!(value("proc main() { return false && print(\"x\"); }"), "false");
}

#[test]
fn logical_or_does_not_evaluate_its_right_side_after_true() {
    assert_eq!(printed("proc main() { true || print(\"x\"); }"), "");
    assert_eq!(value("proc main() { return true || print(\"x\"); }"), "true");
}

#[test]
fn logical_operators_evaluate_their_right_side_where_needed() {
    let (result, output) = run("proc main() { true && print(\"x\"); }");
    assert_eq!(output, "x");
    assert_eq!(result.unwrap_err(), "bad argument \"nil\"");
    assert_eq!(value("proc main() { return true && false; }"), "false");
    assert_eq!(value("proc main() { return false || true; }"), "true");
    assert_eq!(failure("proc main() { 1 || true; }"), "bad argument \"1\"");
}

#[test]
fn short_circuiting() {
    assert_eq!(
        printed("proc main() { print(true || f(), false && f()); }"),
        "true false"
    );
}

#[test]
fn reassignment_in_a_block_escapes_it() {
    assert_eq!(
        printed("proc main() { let x = 5; { x = 10; } print(x); }"),
        "10"
    );
}

#[test]
fn a_let_in_a_block_does_not_escape_it() {
    assert_eq!(
        printed("proc main() { let x = 5; { let x = 10; } print(x); }"),
        "5"
    );
    assert_eq!(
        failure("proc main() { { let y = 1; } print(y); }"),
        "unknown variable \"y\""
    );
}

#[test]
fn shadowing() {
    assert_eq!(
        printed("proc main() { let x = 5; print(x, \"\"); { let x = 10; print(x, \"\"); } print(x); }"),
        "5 10 5"
    );
}

#[test]
fn a_shadowing_name_that_is_reassigned_is_written_back() {
    assert_eq!(
        printed("proc main() { let x = 5; { let x = 10; x = 20; } print(x); }"),
        "20"
    );
}

#[test]
fn a_reassigned_shadow_of_a_constant_fails_at_the_end_of_the_block() {
    assert_eq!(
        failure("proc main() { const x = 1; { let x = 2; x = 3; } print(x); }"),
        "cannot assign to \"x\" because it is a constant"
    );
}

#[test]
fn closures_capture_by_value() {
    assert_eq!(
        printed(
            "proc main() { let x = 5; let f = (n) -> { return n + x; }; x = 100; print(f(1)); }"
        ),
        "6"
    );
}

#[test]
fn a_call_does_not_change_the_bindings_of_the_caller() {
    assert_eq!(
        printed("proc main() { let x = 1; let f = () -> { x = 2; return x; }; print(f(), x); }"),
        "2 1"
    );
}

#[test]
fn top_level_procedures_do_not_see_the_bindings_of_the_caller() {
    assert_eq!(
        failure("proc f() { return x; } proc main() { let x = 1; print(f()); }"),
        "unknown variable \"x\""
    );
}

#[test]
fn for_loop_prints_as_its_expansion() {
    let with_for = printed("proc main() { for (let i = 0; i < 3; i = i + 1) { print(i); } }");
    let expanded =
        printed("proc main() { let i = 0; while (i < 3) { print(i); i = i + 1; } }");
    assert_eq!(with_for, "012");
    assert_eq!(with_for, expanded);
}

#[test]
fn for_loop_variable_does_not_escape() {
    assert_eq!(
        failure("proc main() { for (let i = 0; i < 3; i++) { } print(i); }"),
        "unknown variable \"i\""
    );
}

#[test]
fn break_outside_a_loop_fails() {
    assert_eq!(
        failure("proc main() { break; }"),
        "break statement found outside of a loop"
    );
    assert_eq!(
        failure("proc f() { break; } proc main() { while (true) { f(); } }"),
        "break statement found outside of a loop"
    );
}

#[test]
fn continue_outside_a_loop_fails() {
    assert_eq!(
        failure("proc main() { if (true) { continue; } }"),
        "continue statement found outside of a loop"
    );
}

#[test]
fn break_ends_only_the_innermost_loop() {
    assert_eq!(
        printed(
            "proc main() {
                let i = 0;
                while (i < 3) {
                    let j = 0;
                    while (true) {
                        if (j == 2) { break; }
                        print(i, j, \"\");
                        j = j + 1;
                    }
                    i = i + 1;
                }
            }"
        ),
        "0 0 0 1 1 0 1 1 2 0 2 1 "
    );
}

#[test]
fn while_statement() {
    assert_eq!(
        printed("proc main() { let i = 5; while (i > 0) { print(i, \"\"); i = i - 1; } }"),
        "5 4 3 2 1 "
    );
}

#[test]
fn while_with_break() {
    assert_eq!(
        printed(
            "proc main() { let i = 5; while (true) { if (i < 3) { break; } print(i, \"\"); i -= 1; } }"
        ),
        "5 4 3 "
    );
}

#[test]
fn while_with_continue() {
    assert_eq!(
        printed(
            "proc main() { let i = 0; while (i < 5) { i += 1; if (i % 2 == 0) { continue; } print(i); } }"
        ),
        "135"
    );
}

#[test]
fn return_in_a_loop_ends_the_procedure() {
    assert_eq!(
        printed(
            "proc first(limit) { let i = 0; while (true) { if (i * i > limit) { return i; } i++; } }
             proc main() { print(first(50)); }"
        ),
        "8"
    );
}

#[test]
fn early_return() {
    assert_eq!(
        value("proc main() { if (true) { return \"success\"; } return \"failure\"; }"),
        "success"
    );
}

#[test]
fn a_body_without_return_gives_nil() {
    assert_eq!(value("proc main() { 1 + 2; }"), "nil");
    assert_eq!(printed("proc f() { 5; } proc main() { print(f()); }"), "nil");
    assert_eq!(printed("proc main() { print(is_nil((() -> { })())); }"), "true");
}

#[test]
fn constants_cannot_be_reassigned() {
    assert_eq!(
        failure("proc main() { const x = 1; x = 2; }"),
        "cannot assign to \"x\" because it is a constant"
    );
    assert_eq!(
        failure("proc main() { const x = 1; x += 2; }"),
        "cannot assign to \"x\" because it is a constant"
    );
    assert_eq!(
        failure("proc main() { const x = 1; x++; }"),
        "cannot assign to \"x\" because it is a constant"
    );
}

#[test]
fn variables_can_be_reassigned() {
    assert_eq!(printed("proc main() { let x = 1; x = 2; print(x); }"), "2");
}

#[test]
fn parameters_are_constants() {
    assert_eq!(
        failure("proc f(a) { a = 1; } proc main() { f(0); }"),
        "cannot assign to \"a\" because it is a constant"
    );
}

#[test]
fn top_level_procedures_cannot_be_reassigned() {
    assert_eq!(
        failure("proc f() { } proc main() { f = 1; }"),
        "cannot assign to top-level procedure \"f\""
    );
}

#[test]
fn assignment_to_an_unknown_name_fails() {
    assert_eq!(
        failure("proc main() { x = 1; }"),
        "unknown variable \"x\""
    );
}

#[test]
fn list_index_in_range() {
    assert_eq!(printed("proc main() { print(list(1, 2, 3)[2]); }"), "3");
    assert_eq!(printed("proc main() { print(list(1, 2, 3)[0]); }"), "1");
}

#[test]
fn list_index_out_of_bounds() {
    assert_eq!(
        failure("proc main() { list(1, 2, 3)[3]; }"),
        "index 3 is out of bounds"
    );
    assert_eq!(
        failure("proc main() { list(1, 2, 3)[-1]; }"),
        "index -1 is out of bounds"
    );
    assert_eq!(
        failure("proc main() { list()[0]; }"),
        "index 0 is out of bounds"
    );
}

#[test]
fn index_that_is_no_integer() {
    assert_eq!(
        failure("proc main() { list(1, 2, 3)[3.14]; }"),
        "expected an integer but got \"3.14\", which is not an integer"
    );
    assert_eq!(
        failure("proc main() { list(1, 2, 3)[\"hello\"]; }"),
        "expected an integer but got \"hello\", which is not an integer"
    );
}

#[test]
fn string_indexing() {
    assert_eq!(printed("proc main() { print(\"hello\"[1]); }"), "e");
    assert_eq!(
        failure("proc main() { \"hello\"[5]; }"),
        "index 5 is out of bounds"
    );
    assert_eq!(
        failure("proc main() { \"hello\"[true]; }"),
        "expected an integer but got \"true\", which is not an integer"
    );
}

#[test]
fn indexing_what_is_not_indexable() {
    assert_eq!(
        failure("proc main() { let x = 10; x[print(\"no\")]; }"),
        "\"10\" is not indexable"
    );
    assert_eq!(
        run("proc main() { let x = 10; x[print(\"no\")]; }").1,
        ""
    );
}

#[test]
fn arity_is_checked() {
    let source = |call: &str| {
        format!(
            "proc add(a, b) {{ return a + b; }} proc main() {{ print({}); }}",
            call
        )
    };
    assert_eq!(printed(&source("add(1, 2)")), "3");
    assert_eq!(
        failure(&source("add(1)")),
        "procedure \"add\" expected 2 args, instead got 1"
    );
    assert_eq!(
        failure(&source("add(1, 2, 3)")),
        "procedure \"add\" expected 2 args, instead got 3"
    );
}

#[test]
fn arity_of_a_lambda_is_checked_before_the_arguments_are_evaluated() {
    let (result, output) = run("proc main() { ((a) -> { })(print(1), print(2)); }");
    assert_eq!(
        result.unwrap_err(),
        "procedure \"<lambda>\" expected 1 args, instead got 2"
    );
    assert_eq!(output, "");
}

#[test]
fn arguments_are_evaluated_from_left_to_right() {
    assert_eq!(
        printed("proc f(a, b, c) { } proc main() { f(print(1), print(2), print(3)); }"),
        "123"
    );
}

#[test]
fn calling_what_is_no_procedure_fails() {
    assert_eq!(
        failure("proc main() { let x = 5; x(1); }"),
        "bad argument \"5\""
    );
}

#[test]
fn fibonacci() {
    assert_eq!(
        printed(
            "proc fib(n) { if (n < 2) { return n; } return fib(n - 1) + fib(n - 2); }
             proc main() { print(fib(10)); }"
        ),
        "55"
    );
}

#[test]
fn identity() {
    assert_eq!(
        printed("proc id(x) { return x; } proc main() { print(id(5)); print(id(true)); }"),
        "5true"
    );
}

#[test]
fn even_and_odd() {
    assert_eq!(
        printed(
            "proc even(n) { if (n == 0) { return true; } return odd(n - 1); }
             proc odd(n) { if (n == 0) { return false; } return even(n - 1); }
             proc main() { print(even(10)); }"
        ),
        "true"
    );
}

#[test]
fn lambdas() {
    assert_eq!(
        printed(
            "proc twice(f, x) { return f(f(x)); }
             proc main() { print(twice((n) -> { return n * 2; }, 5)); }"
        ),
        "20"
    );
    assert_eq!(
        printed("proc main() { let f = () -> { }; print(f); }"),
        "<lambda>"
    );
}

#[test]
fn string_concatenation() {
    assert_eq!(
        printed("proc main() { print(\"hello\" + \" \" + \"world\"); }"),
        "hello world"
    );
}

#[test]
fn escape_sequences() {
    assert_eq!(
        printed("proc main() { print(\"first line\\nsecond line\"); }"),
        "first line\nsecond line"
    );
}

#[test]
fn comments() {
    assert_eq!(
        printed("// at the head\nproc main() { // after code\n print(\"hello // world\"); // again\n }"),
        "hello // world"
    );
}

#[test]
fn numerical_operators() {
    assert_eq!(
        printed("proc main() { print(6 - 4, 1 - 6, 3 * 4, 5 + 3 * 4); }"),
        "2 -5 12 17"
    );
}

#[test]
fn relational_operators() {
    assert_eq!(
        printed("proc main() { print(1 < 2, 2 < 1, 2 <= 2, 3 >= 3, 2 > 3); }"),
        "true false true true false"
    );
}

#[test]
fn equality_operators() {
    assert_eq!(
        printed("proc main() { print(1 == 1, 1 != 1, true == false, true != false, 0.5 == .5); }"),
        "true false false true true"
    );
    assert_eq!(
        failure("proc main() { \"a\" == \"a\"; }"),
        "bad args: [a, a]"
    );
}

#[test]
fn unary_operators() {
    assert_eq!(
        printed("proc main() { let x = 3; print(-x, !true, - -x, !!false); }"),
        "-3 false 3 false"
    );
    assert_eq!(failure("proc main() { -true; }"), "bad argument \"true\"");
    assert_eq!(failure("proc main() { !1; }"), "bad argument \"1\"");
}

#[test]
fn increments_and_decrements() {
    assert_eq!(
        printed("proc main() { let x = 5; print(++x, x++, x, --x, x--, x); }"),
        "6 6 7 6 6 5"
    );
    assert_eq!(
        failure("proc main() { ++5; }"),
        "invalid assignment target"
    );
    assert_eq!(
        failure("proc main() { let s = \"a\"; s++; }"),
        "bad argument \"a\""
    );
    assert_eq!(
        failure("proc main() { ++y; }"),
        "unknown variable \"y\""
    );
}

#[test]
fn compound_assignment() {
    assert_eq!(
        printed("proc main() { let x = 5; x += 3; print(x); x -= 10; print(x); }"),
        "8-2"
    );
    assert_eq!(
        printed("proc main() { let s = \"a\"; s += \"b\"; print(s); }"),
        "ab"
    );
}

#[test]
fn decimal_arithmetic_is_exact() {
    assert_eq!(printed("proc main() { print(0.1 + 0.2); }"), "0.3");
    assert_eq!(printed("proc main() { print(10 / 4); }"), "2.5");
    assert_eq!(printed("proc main() { print(1.5 * 1.5); }"), "2.25");
    assert_eq!(printed("proc main() { print(0 - 0.5); }"), "-0.5");
}

#[test]
fn division_and_product_round_toward_zero() {
    assert_eq!(printed("proc main() { print(1 / 3); }"), "0.333333");
    assert_eq!(printed("proc main() { print(0 - 1 / 3); }"), "-0.333333");
    assert_eq!(printed("proc main() { print(2 / 3); }"), "0.666666");
    assert_eq!(printed("proc main() { print(0.001 * 0.001); }"), "0.000001");
    assert_eq!(printed("proc main() { print(0.001 * 0.0001); }"), "0");
}

#[test]
fn remainder_has_the_sign_of_the_dividend() {
    assert_eq!(printed("proc main() { print(7 % 3, -7 % 3, 7 % -3, 7.5 % 2); }"), "1 -1 1 1.5");
}

#[test]
fn division_by_zero_fails() {
    assert_eq!(failure("proc main() { 1 / 0; }"), "bad args: [1, 0]");
    assert_eq!(failure("proc main() { 1 % 0; }"), "bad args: [1, 0]");
}

#[test]
fn a_result_that_does_not_fit_fails() {
    assert_eq!(
        failure("proc main() { 9000000000000 + 9000000000000; }"),
        "bad args: [9000000000000, 9000000000000]"
    );
    assert_eq!(
        failure("proc main() { 4000000 * 4000000; }"),
        "bad args: [4000000, 4000000]"
    );
    assert_eq!(printed("proc main() { print(3000000 * 3000000); }"), "9000000000000");
}

#[test]
fn operands_of_the_wrong_kind() {
    assert_eq!(failure("proc main() { 1 + \"a\"; }"), "bad argument \"a\"");
    assert_eq!(failure("proc main() { \"a\" + 1; }"), "bad argument \"a\"");
    assert_eq!(failure("proc main() { true + 1; }"), "bad argument \"true\"");
    assert_eq!(failure("proc main() { 1 - true; }"), "bad argument \"true\"");
    assert_eq!(failure("proc main() { true - 1; }"), "bad argument \"true\"");
    assert_eq!(failure("proc main() { 1 * true; }"), "bad args: [1, true]");
    assert_eq!(failure("proc main() { 1 < \"b\"; }"), "bad args: [1, b]");
    assert_eq!(
        failure("proc main() { list(1) >= list(); }"),
        "bad args: [[1], []]"
    );
}

#[test]
fn conditions_must_be_booleans() {
    assert_eq!(failure("proc main() { if (1) { } }"), "bad argument \"1\"");
    assert_eq!(
        failure("proc main() { while (\"yes\") { } }"),
        "bad argument \"yes\""
    );
}

#[test]
fn if_else_chains() {
    let source = |n: &str| {
        format!(
            "proc kind(n) {{
                if (n < 0) {{ return \"negative\"; }}
                else if (n == 0) {{ return \"zero\"; }}
                else if (n < 10) {{ return \"small\"; }}
                else {{ return \"large\"; }}
            }}
            proc main() {{ print(kind({})); }}",
            n
        )
    };
    assert_eq!(printed(&source("0 - 5")), "negative");
    assert_eq!(printed(&source("0")), "zero");
    assert_eq!(printed(&source("5")), "small");
    assert_eq!(printed(&source("50")), "large");
}

#[test]
fn print_joins_with_spaces_and_adds_no_line_end() {
    assert_eq!(
        printed("proc main() { print(1, \"two\", true, list(3, \"x\"), list()); print(); print(4); }"),
        "1 two true [3, x] []4"
    );
}

#[test]
fn list_initialization() {
    assert_eq!(
        printed("proc main() { print(list(1, 2, list(4, 5))); }"),
        "[1, 2, [4, 5]]"
    );
}

#[test]
fn list_concatenation() {
    assert_eq!(
        printed(
            "proc main() { let a = list(1, 2, 3); let b = list(4, 5, 6); print(list(a, b, a + b)); }"
        ),
        "[[1, 2, 3], [4, 5, 6], [1, 2, 3, 4, 5, 6]]"
    );
}

#[test]
fn head() {
    assert_eq!(
        printed("proc main() { print(head(list(1, 2, 3)), head(list())); }"),
        "1 nil"
    );
}

#[test]
fn rest() {
    assert_eq!(
        printed("proc main() { print(rest(list(1, 2, 3)), rest(list())); }"),
        "[2, 3] nil"
    );
    assert_eq!(printed("proc main() { print(rest(list(1))); }"), "[]");
}

#[test]
fn is_empty() {
    assert_eq!(
        printed("proc main() { print(is_empty(list()), is_empty(list(1))); }"),
        "true false"
    );
}

#[test]
fn is_nil() {
    assert_eq!(
        printed("proc main() { print(is_nil(head(list())), is_nil(0), is_nil(list())); }"),
        "true false false"
    );
}

#[test]
fn err_head_non_list() {
    assert_eq!(
        failure("proc main() { head(4); }"),
        "expected a list, instead got 4, which is not a list"
    );
}

#[test]
fn err_rest_non_list() {
    assert_eq!(
        failure("proc main() { rest(head(list())); }"),
        "expected a list, instead got nil, which is not a list"
    );
}

#[test]
fn err_is_empty_non_list() {
    assert_eq!(
        failure("proc main() { is_empty(true); }"),
        "expected a list, instead got true, which is not a list"
    );
}

#[test]
fn builtins_of_one_argument_check_their_arity() {
    assert_eq!(
        failure("proc main() { head(); }"),
        "procedure \"head\" expected 1 args, instead got 0"
    );
    assert_eq!(
        failure("proc main() { is_nil(1, 2, 3); }"),
        "procedure \"is_nil\" expected 1 args, instead got 3"
    );
    assert_eq!(
        failure("proc main() { rest(list(), list()); }"),
        "procedure \"rest\" expected 1 args, instead got 2"
    );
    assert_eq!(
        failure("proc main() { is_empty(); }"),
        "procedure \"is_empty\" expected 1 args, instead got 0"
    );
}

#[test]
fn evaluation_limit_ends_an_endless_loop() {
    let (result, output) = interp_with_limit("proc main() { while (true) { print(1); } }", 3);
    assert_eq!(result.unwrap_err(), "evaluation limit exceeded");
    assert_eq!(output, "1111");
}

#[test]
fn evaluation_limit_ends_an_endless_recursion() {
    let (result, _) = interp_with_limit("proc f() { return f(); } proc main() { f(); }", 50);
    assert_eq!(result.unwrap_err(), "evaluation limit exceeded");
}

#[test]
fn evaluation_limit_counts_calls_and_turns() {
    let source = "proc main() { let i = 0; while (i < 3) { i++; } return i; }";
    assert_eq!(interp_with_limit(source, 3).0.unwrap(), "3");
    assert_eq!(
        interp_with_limit(source, 1).0.unwrap_err(),
        "evaluation limit exceeded"
    );
    let call = "proc f() { return 1; } proc main() { return f(); }";
    assert_eq!(interp_with_limit(call, 1).0.unwrap(), "1");
    assert_eq!(
        interp_with_limit(call, 0).0.unwrap_err(),
        "evaluation limit exceeded"
    );
}

#[test]
fn failures_of_the_earlier_stages_are_reported() {
    assert_eq!(failure("proc main() { # }"), "unknown token: #");
    assert_eq!(failure("proc main() { print(\"a); }"), "unterminated string literal");
    assert_eq!(failure("proc f() { }"), "main procedure not found");
    assert_eq!(
        failure("proc main() { let = 1; }"),
        "keyword \"let\" used as variable"
    );
    assert_eq!(
        failure("proc main() { let x = 1 }"),
        "expected token \";\" @ (1, 25), instead got \"}\""
    );
}

#[test]
fn output_before_a_failure_is_kept() {
    let (result, output) = run("proc main() { print(\"a\"); print(b); }");
    assert_eq!(result.unwrap_err(), "unknown variable \"b\"");
    assert_eq!(output, "a");
}

#[test]
fn interp_to_buffer_appends_what_was_printed() {
    let mut buf: Vec<u8> = vec![b'>'];
    let result = interp_to_buffer(
        "proc main() { print(\"hello\"); return 1 + 1; }".to_string(),
        &mut buf,
    );
    assert_eq!(result, Ok("2".to_string()));
    assert_eq!(buf, b">hello".to_vec());
}

#[test]
fn interp_to_buffer_writes_utf8() {
    let mut buf: Vec<u8> = Vec::new();
    let result = interp_to_buffer("proc main() { print(\"h\u{e9}\"); }".to_string(), &mut buf);
    assert_eq!(result, Ok("nil".to_string()));
    assert_eq!(buf, vec![b'h', 0xc3, 0xa9]);
}

#[test]
fn interp_to_buffer_reports_failures() {
    let mut buf: Vec<u8> = Vec::new();
    let result = interp_to_buffer("proc main() { print(1); x; }".to_string(), &mut buf);
    assert_eq!(result, Err("unknown variable \"x\"".to_string()));
    assert_eq!(buf, b"1".to_vec());
}
