use stack_lang::executor::Executor;
use stack_lang::host::{Operator, Question, Request};
use stack_lang::value::Value;

fn text(s: &str) -> Vec<char> {
    s.chars().collect()
}

fn string(t: &[char]) -> String {
    t.iter().collect()
}

fn double(t: &[char]) -> f64 {
    string(t).parse().unwrap_or(f64::NAN)
}

fn number(x: f64) -> Value {
    Value::Number(text(&x.to_string()))
}

fn num(s: &str) -> Value {
    Value::Number(text(s))
}

fn st(s: &str) -> Value {
    Value::String(text(s))
}

fn answer(q: &Question, input: &str) -> Option<Value> {
    match q {
        Question::Parse(t) => string(t).parse::<f64>().ok().map(number),
        Question::Calculate(op, a, b) => {
            let (a, b) = (double(a), double(b));
            Some(number(match op {
                Operator::Plus => a + b,
                Operator::Minus => a - b,
                Operator::Times => a * b,
                Operator::Over => a / b,
                Operator::Remainder => a % b,
                Operator::Power => a.powf(b),
            }))
        }
        Question::Round(a) => Some(number(double(a).round())),
        Question::Less(a, b) => Some(Value::Bool(double(a) < double(b))),
        Question::Prompt(m) => Some(st(&format!("{}{}", string(m), input))),
        Question::Now => Some(number(1234.5)),
        Question::Sleep(_) => None,
    }
}

fn run_with(src: &str, input: &str) -> (Executor, Option<i32>) {
    let mut engine = Executor::new();
    engine.evaluate_program(src.to_string());
    let mut reply = None;
    for _ in 0..200000 {
        match engine.step(reply.take()) {
            Request::Ask(q) => reply = answer(&q, input),
            Request::Continue => {}
            Request::Exit(code) => return (engine, Some(code)),
            Request::Finished => return (engine, None),
        }
    }
    panic!("the program did not finish");
}

fn run(src: &str) -> Executor {
    run_with(src, "").0
}

fn stack_of(src: &str) -> Vec<Value> {
    run(src).stack()
}

fn log_of(engine: &Executor) -> String {
    engine.result().log()
}

const UNDERFLOW: &str = "エラー! スタックの値が足りません。デフォルト値を返します\n";
const OUT_OF_RANGE: &str = "エラー! インデックス指定が範囲外です\n";

#[test]
fn five_three_add_leaves_eight() {
    assert_eq!(stack_of("5 3 add"), vec![num("8")]);
}

#[test]
fn concat_joins_two_strings() {
    assert_eq!(stack_of("(a) (b) concat"), vec![st("ab")]);
}

#[test]
fn reverse_turns_a_list_round() {
    assert_eq!(
        stack_of("[1 2 3] reverse"),
        vec![Value::List(vec![num("3"), num("2"), num("1")])]
    );
}

#[test]
fn range_steps_from_min_to_max() {
    assert_eq!(
        stack_of("0 10 2 range"),
        vec![Value::List(vec![num("0"), num("2"), num("4"), num("6"), num("8")])]
    );
}

#[test]
fn add_on_an_empty_stack_leaves_zero_and_logs() {
    let engine = run("add");
    assert_eq!(engine.stack(), vec![num("0")]);
    let log = log_of(&engine);
    assert_eq!(log.matches(UNDERFLOW).count(), 2);
    assert_eq!(engine.result().output(), "");
}

#[test]
fn for_leaves_its_variable_bound_to_the_last_item() {
    let engine = run("[1 2] (x) (x) for");
    assert_eq!(engine.variable("x"), Some(num("2")));
    assert_eq!(engine.stack(), vec![num("1"), num("2")]);
    let engine = run("[1 2] (x) (x) for x");
    assert_eq!(engine.stack(), vec![num("1"), num("2"), num("2")]);
}

#[test]
fn map_and_filter_leave_their_variable_bound() {
    let engine = run("[1 2 3] (y) (y 2 mul) map");
    assert_eq!(engine.variable("y"), Some(num("3")));
    let engine = run("[1 2 3] (z) (z 2 less) filter");
    assert_eq!(engine.variable("z"), Some(num("3")));
}

#[test]
fn a_sweep_overwrites_a_variable_and_does_not_restore_it() {
    let engine = run("9 (x) var [1 2] (x) () for x");
    assert_eq!(engine.stack(), vec![num("2")]);
}

#[test]
fn if_runs_the_first_branch_on_true() {
    assert_eq!(stack_of("(1) (2) true if"), vec![num("1")]);
}

#[test]
fn if_runs_the_second_branch_on_false() {
    assert_eq!(stack_of("(1) (2) false if"), vec![num("2")]);
}

#[test]
fn if_does_not_touch_the_other_branch() {
    let engine = run("((then) print) ((else) print) true if");
    assert_eq!(engine.result().output(), "then\n");
}

#[test]
fn a_quoted_token_is_pushed_unchanged() {
    assert_eq!(stack_of("(text)"), vec![st("text")]);
    assert_eq!(stack_of("(a  b\\n [x] #y# (z))"), vec![st("a  b\\n [x] #y# (z)")]);
    assert_eq!(stack_of("()"), vec![st("")]);
    assert_eq!(stack_of("(12)"), vec![st("12")]);
}

#[test]
fn white_space_in_a_quoted_token_becomes_plain_spaces() {
    assert_eq!(stack_of("(a\tb\nc\u{3000}d)"), vec![st("a b c d")]);
}

#[test]
fn numbers_are_pushed_as_the_host_reads_them() {
    assert_eq!(stack_of("1.50 -0 1e3 .5 inf"), vec![num("1.5"), num("-0"), num("1000"), num("0.5"), num("inf")]);
}

#[test]
fn truth_values_are_pushed() {
    assert_eq!(stack_of("true false"), vec![Value::Bool(true), Value::Bool(false)]);
}

#[test]
fn an_unknown_word_is_a_string() {
    assert_eq!(stack_of("hello"), vec![st("hello")]);
}

#[test]
fn a_number_wins_over_a_variable_of_its_name() {
    assert_eq!(stack_of("(v) (7) var 7"), vec![num("7")]);
}

#[test]
fn a_variable_wins_over_a_command_of_its_name() {
    assert_eq!(stack_of("5 (add) var 1 2 add"), vec![num("1"), num("2"), num("5")]);
}

#[test]
fn a_comment_leaves_the_stack_alone() {
    let engine = run("1 #a comment here# 2");
    assert_eq!(engine.stack(), vec![num("1"), num("2")]);
    assert!(log_of(&engine).contains("※ コメント「a comment here」\n"));
}

#[test]
fn a_list_literal_gathers_what_its_inside_leaves() {
    assert_eq!(
        stack_of("7 [1 (two) true [3]]"),
        vec![
            num("7"),
            Value::List(vec![num("1"), st("two"), Value::Bool(true), Value::List(vec![num("3")])])
        ]
    );
    assert_eq!(stack_of("[]"), vec![Value::List(vec![])]);
}

#[test]
fn a_list_literal_runs_commands_inside() {
    assert_eq!(stack_of("[1 2 add]"), vec![Value::List(vec![num("3")])]);
}

#[test]
fn a_list_literal_that_eats_the_stack_is_empty() {
    assert_eq!(stack_of("1 2 [pop pop]"), vec![Value::List(vec![])]);
}

#[test]
fn white_space_inside_a_list_literal_is_squeezed() {
    assert_eq!(stack_of("[  (a   b)   1 ]"), vec![Value::List(vec![st("a b"), num("1")])]);
}

#[test]
fn arithmetic_goes_through_the_host() {
    assert_eq!(stack_of("7 2 sub"), vec![num("5")]);
    assert_eq!(stack_of("7 2 mul"), vec![num("14")]);
    assert_eq!(stack_of("7 2 div"), vec![num("3.5")]);
    assert_eq!(stack_of("7 2 mod"), vec![num("1")]);
    assert_eq!(stack_of("7 2 pow"), vec![num("49")]);
    assert_eq!(stack_of("2.5 round"), vec![num("3")]);
    assert_eq!(stack_of("-2.5 round"), vec![num("-3")]);
    assert_eq!(stack_of("1 0 div"), vec![num("inf")]);
    assert_eq!(stack_of("0 0 div"), vec![num("NaN")]);
    assert_eq!(stack_of("0.1 0.2 add"), vec![num("0.30000000000000004")]);
}

#[test]
fn arithmetic_coerces_its_operands() {
    assert_eq!(stack_of("(5) true add"), vec![num("6")]);
    assert_eq!(stack_of("(abc) [1 2 3] add"), vec![num("3")]);
    assert_eq!(stack_of("(2) (3) mul"), vec![num("6")]);
}

#[test]
fn logic_and_comparison() {
    assert_eq!(stack_of("true false and"), vec![Value::Bool(false)]);
    assert_eq!(stack_of("true false or"), vec![Value::Bool(true)]);
    assert_eq!(stack_of("true not"), vec![Value::Bool(false)]);
    assert_eq!(stack_of("0 not"), vec![Value::Bool(true)]);
    assert_eq!(stack_of("-0 not"), vec![Value::Bool(true)]);
    assert_eq!(stack_of("() not"), vec![Value::Bool(true)]);
    assert_eq!(stack_of("[] not"), vec![Value::Bool(true)]);
    assert_eq!(stack_of("0 0 div not"), vec![Value::Bool(false)]);
    assert_eq!(stack_of("1 2 less"), vec![Value::Bool(true)]);
    assert_eq!(stack_of("2 1 less"), vec![Value::Bool(false)]);
    assert_eq!(stack_of("1.0 1 equal"), vec![Value::Bool(true)]);
    assert_eq!(stack_of("(1) 1 equal"), vec![Value::Bool(true)]);
    assert_eq!(stack_of("[1 (a)] ([1 (a)]) equal"), vec![Value::Bool(true)]);
    assert_eq!(stack_of("(a) (b) equal"), vec![Value::Bool(false)]);
}

#[test]
fn string_commands() {
    assert_eq!(stack_of("(ab) 3 repeat"), vec![st("ababab")]);
    assert_eq!(stack_of("(ab) 0 repeat"), vec![st("")]);
    assert_eq!(stack_of("(ab) -2 repeat"), vec![st("")]);
    assert_eq!(stack_of("(ab) 2.9 repeat"), vec![st("abab")]);
    assert_eq!(stack_of("() 1e300 repeat"), vec![st("")]);
    assert_eq!(stack_of("(a-b-c) (-) (+) replace"), vec![st("a+b+c")]);
    assert_eq!(stack_of("(aaa) (aa) (b) replace"), vec![st("ba")]);
    assert_eq!(stack_of("(abc) () (-) replace"), vec![st("-a-b-c-")]);
    assert_eq!(
        stack_of("(a,b,,c) (,) split"),
        vec![Value::List(vec![st("a"), st("b"), st(""), st("c")])]
    );
    assert_eq!(
        stack_of("(ab) () split"),
        vec![Value::List(vec![st(""), st("a"), st("b"), st("")])]
    );
    assert_eq!(stack_of("[1 (b) true] (-) join"), vec![st("1-b-true")]);
    assert_eq!(stack_of("(abc) (,) join"), vec![st("a,b,c")]);
    assert_eq!(stack_of("(hello) (ell) find"), vec![Value::Bool(true)]);
    assert_eq!(stack_of("(hello) (elo) find"), vec![Value::Bool(false)]);
    assert_eq!(stack_of("(hello) () find"), vec![Value::Bool(true)]);
}

#[test]
fn decode_gives_the_character_of_a_code_point() {
    assert_eq!(stack_of("65 decode"), vec![st("A")]);
    assert_eq!(stack_of("12354 decode"), vec![st("あ")]);
    assert_eq!(stack_of("65.9 decode"), vec![st("A")]);
    assert_eq!(stack_of("0 decode"), vec![st("\u{0}")]);
    assert_eq!(stack_of("-0.5 decode"), vec![st("\u{0}")]);
    assert_eq!(stack_of("1114111 decode"), vec![st("\u{10FFFF}")]);
}

#[test]
fn decode_of_no_code_point_gives_the_number_back_and_logs() {
    let engine = run("55296 decode");
    assert_eq!(engine.stack(), vec![num("55296")]);
    assert!(log_of(&engine).contains("エラー! 数値デコードに失敗しました\n"));
    assert_eq!(stack_of("57343 decode"), vec![num("57343")]);
    let engine = run("-5 decode");
    assert_eq!(engine.stack(), vec![num("-5")]);
    assert!(log_of(&engine).contains("エラー! 数値デコードに失敗しました\n"));
    assert_eq!(stack_of("-inf decode"), vec![num("-inf")]);
    assert_eq!(stack_of("1114112 decode"), vec![num("1114112")]);
    assert_eq!(stack_of("1e10 decode"), vec![num("10000000000")]);
    assert_eq!(stack_of("55295 decode"), vec![st("\u{D7FF}")]);
    assert_eq!(stack_of("57344 decode"), vec![st("\u{E000}")]);
}

#[test]
fn encode_gives_the_code_point_of_the_first_character() {
    assert_eq!(stack_of("(ABC) encode"), vec![num("65")]);
    assert_eq!(stack_of("(あ) encode"), vec![num("12354")]);
}

#[test]
fn encode_of_the_empty_string_gives_it_back_and_logs() {
    let engine = run("() encode");
    assert_eq!(engine.stack(), vec![st("")]);
    assert!(log_of(&engine).contains("エラー! 文字列のエンコードに失敗しました\n"));
}

#[test]
fn print_writes_a_line_to_the_output_only() {
    let engine = run("(héllo) print 5 print [1 (a)] print");
    assert_eq!(engine.result().output(), "héllo\n5\n[1 (a)]\n");
    assert!(!log_of(&engine).contains("héllo\n"));
    assert_eq!(engine.stack(), vec![]);
}

#[test]
fn input_asks_the_host_and_pushes_its_answer() {
    let (engine, _) = run_with("(name? ) input", "Ann");
    assert_eq!(engine.stack(), vec![st("name? Ann")]);
}

#[test]
fn eval_runs_a_string_on_the_same_stack() {
    assert_eq!(stack_of("1 (2 add) eval"), vec![num("3")]);
    assert_eq!(stack_of("1 (2 (x) var) eval x"), vec![num("1"), num("2")]);
}

#[test]
fn while_runs_its_body_as_long_as_the_condition_holds() {
    let engine = run("0 (i) var (i 3 less) (i 1 add (i) var) while i");
    assert_eq!(engine.stack(), vec![num("3")]);
    assert_eq!(stack_of("() (1) while"), vec![]);
    assert_eq!(stack_of("(false) (1) while"), vec![]);
}

#[test]
fn while_takes_its_body_from_the_top_and_its_condition_from_below() {
    let engine = run("(false) ((x) print) while");
    assert_eq!(engine.result().output(), "");
    assert_eq!(engine.stack(), vec![]);
    let engine = run("1 (n) var (n) ((x) print 0 (n) var) while");
    assert_eq!(engine.result().output(), "x\n");
    assert_eq!(engine.stack(), vec![]);
}

#[test]
fn while_with_an_empty_condition_logs_an_underflow_and_ends() {
    let engine = run("() (7) while");
    assert_eq!(engine.stack(), vec![]);
    assert_eq!(log_of(&engine).matches(UNDERFLOW).count(), 1);
}

#[test]
fn exit_ends_the_run_with_its_status() {
    let (engine, status) = run_with("1 3 exit 5", "");
    assert_eq!(status, Some(3));
    assert_eq!(engine.stack(), vec![num("1")]);
    assert!(engine.is_finished());
    assert_eq!(run_with("(1 3.9 exit 2) eval 4", "").1, Some(3));
    assert_eq!(run_with("-7.5 exit", "").1, Some(-7));
    assert_eq!(run_with("1e300 exit", "").1, Some(i32::MAX));
    assert_eq!(run_with("-1e300 exit", "").1, Some(i32::MIN));
    assert_eq!(run_with("0 0 div exit", "").1, Some(0));
    assert_eq!(run_with("exit", "").1, Some(0));
}

#[test]
fn exit_cannot_be_caught() {
    let (engine, status) = run_with("((a) print 2 exit (b) print) (x) true if (c) print", "");
    assert_eq!(status, Some(2));
    assert_eq!(engine.result().output(), "a\n");
    let mut engine = engine;
    assert_eq!(engine.step(None), Request::Finished);
}

#[test]
fn get_set_and_del_within_a_list() {
    assert_eq!(stack_of("[1 2 3] 1 get"), vec![num("2")]);
    assert_eq!(stack_of("(abc) 2 get"), vec![st("c")]);
    assert_eq!(
        stack_of("[1 2 3] 0 (x) set"),
        vec![Value::List(vec![st("x"), num("2"), num("3")])]
    );
    assert_eq!(stack_of("[1 2 3] 2 del"), vec![Value::List(vec![num("1"), num("2")])]);
    assert_eq!(stack_of("[1 2 3] -0.5 get"), vec![num("1")]);
    assert_eq!(stack_of("[1 2 3] -0 get"), vec![num("1")]);
    assert_eq!(stack_of("[1 2 3] 1.7 get"), vec![num("2")]);
}

#[test]
fn get_set_and_del_outside_a_list_give_it_back_and_log() {
    for src in [
        "[1 2] 2 get",
        "[1 2] 2 (x) set",
        "[1 2] 5 del",
        "[1 2] inf get",
        "[1 2] 3 (x) insert",
        "[1 2] -1 get",
        "[1 2] -1 (x) set",
        "[1 2] -1 del",
        "[1 2] -1 (x) insert",
        "[1 2] -inf get",
        "[1 2] -1e300 del",
    ] {
        let engine = run(src);
        assert_eq!(engine.stack(), vec![Value::List(vec![num("1"), num("2")])], "{}", src);
        assert_eq!(log_of(&engine).matches(OUT_OF_RANGE).count(), 1, "{}", src);
    }
}

#[test]
fn append_and_insert() {
    assert_eq!(stack_of("[1] 2 append"), vec![Value::List(vec![num("1"), num("2")])]);
    assert_eq!(stack_of("5 6 append"), vec![Value::List(vec![num("5"), num("6")])]);
    assert_eq!(
        stack_of("[1 3] 1 2 insert"),
        vec![Value::List(vec![num("1"), num("2"), num("3")])]
    );
    assert_eq!(
        stack_of("[1 2] 2 3 insert"),
        vec![Value::List(vec![num("1"), num("2"), num("3")])]
    );
}

#[test]
fn sort_orders_by_the_string_forms() {
    assert_eq!(
        stack_of("[b a 10 9 (B) true]  sort"),
        vec![Value::List(vec![st("10"), st("9"), st("B"), st("a"), st("b"), st("true")])]
    );
    assert_eq!(stack_of("[] sort"), vec![Value::List(vec![])]);
    assert_eq!(
        stack_of("[(ab) (a) (abc) () (a)] sort"),
        vec![Value::List(vec![st(""), st("a"), st("a"), st("ab"), st("abc")])]
    );
}

#[test]
fn map_collects_one_value_for_each_item() {
    assert_eq!(
        stack_of("[1 2 3] (x) (x 2 mul) map"),
        vec![Value::List(vec![num("2"), num("4"), num("6")])]
    );
    assert_eq!(stack_of("[] (x) (x) map"), vec![Value::List(vec![])]);
}

#[test]
fn map_with_an_empty_body_takes_from_the_stack_below() {
    let engine = run("9 [1 2] (x) () map");
    assert_eq!(engine.stack(), vec![Value::List(vec![num("9"), st("")])]);
    assert_eq!(log_of(&engine).matches(UNDERFLOW).count(), 1);
}

#[test]
fn filter_keeps_the_items_that_pass() {
    assert_eq!(
        stack_of("[1 2 3 4] (x) (x 2 mod 0 equal) filter"),
        vec![Value::List(vec![num("2"), num("4")])]
    );
    assert_eq!(
        stack_of("[(a) () (b)] (s) (s) filter"),
        vec![Value::List(vec![st("a"), st("b")])]
    );
}

#[test]
fn for_runs_its_body_for_each_item() {
    let engine = run("[1 2 3] (x) (x print) for");
    assert_eq!(engine.result().output(), "1\n2\n3\n");
    assert_eq!(engine.stack(), vec![]);
    assert_eq!(stack_of("(ab) (c) (c c concat) for"), vec![st("aa"), st("bb")]);
}

#[test]
fn sweeps_nest() {
    assert_eq!(
        stack_of("[1 2] (x) ([10 20] (y) (x y add) map) map"),
        vec![Value::List(vec![
            Value::List(vec![num("11"), num("21")]),
            Value::List(vec![num("12"), num("22")])
        ])]
    );
}

#[test]
fn range_edge_cases() {
    assert_eq!(stack_of("3 3 1 range"), vec![Value::List(vec![])]);
    assert_eq!(stack_of("5 3 1 range"), vec![Value::List(vec![])]);
    assert_eq!(stack_of("0 3 0 range"), vec![Value::List(vec![])]);
    assert_eq!(
        stack_of("1.9 4.9 1.5 range"),
        vec![Value::List(vec![num("1"), num("2"), num("3")])]
    );
    assert_eq!(
        stack_of("-3 2 1 range"),
        vec![Value::List(vec![num("-3"), num("-2"), num("-1"), num("0"), num("1")])]
    );
    assert_eq!(run("-3 2 1 range print").result().output(), "[-3 -2 -1 0 1]\n");
    assert_eq!(
        stack_of("-5.9 -1.2 2 range"),
        vec![Value::List(vec![num("-5"), num("-3")])]
    );
    assert_eq!(stack_of("0 3 -1 range"), vec![Value::List(vec![])]);
    assert_eq!(stack_of("3 0 -1 range"), vec![Value::List(vec![])]);
    assert_eq!(stack_of("0 3 0.5 range"), vec![Value::List(vec![])]);
    assert_eq!(stack_of("0 5 100 range"), vec![Value::List(vec![num("0")])]);
    assert_eq!(stack_of("0 1 inf range"), vec![Value::List(vec![num("0")])]);
}

#[test]
fn len_counts_items_and_characters() {
    assert_eq!(stack_of("[1 2 3] len"), vec![num("3")]);
    assert_eq!(stack_of("(héllo) len"), vec![num("5")]);
    assert_eq!(stack_of("42 len"), vec![num("1")]);
    assert_eq!(stack_of("true len"), vec![num("1")]);
}

#[test]
fn stack_commands() {
    assert_eq!(stack_of("1 2 pop"), vec![num("1")]);
    assert_eq!(stack_of("1 2 size-stack"), vec![num("1"), num("2"), num("2")]);
    assert_eq!(stack_of("1 copy"), vec![num("1"), num("1")]);
    assert_eq!(stack_of("1 2 swap"), vec![num("2"), num("1")]);
    assert_eq!(stack_of("1 swap"), vec![num("1"), st("")]);
}

#[test]
fn pop_on_an_empty_stack_logs_and_goes_on() {
    let engine = run("pop 1");
    assert_eq!(engine.stack(), vec![num("1")]);
    assert_eq!(log_of(&engine).matches(UNDERFLOW).count(), 1);
}

#[test]
fn var_binds_and_overwrites() {
    let engine = run("1 (a) var 2 (b) var 3 (a) var a b");
    assert_eq!(engine.stack(), vec![num("3"), num("2")]);
    assert_eq!(engine.variable("a"), Some(num("3")));
    assert_eq!(engine.variable("c"), None);
    assert!(log_of(&engine).contains("メモリ内部の変数 { 'a': 3, 'b': 2 }\n"));
}

#[test]
fn mem_lists_the_names_and_free_removes_one() {
    assert_eq!(
        stack_of("1 (a) var (s) (b) var mem"),
        vec![Value::List(vec![st("a"), st("b")])]
    );
    let engine = run("1 (a) var 2 (b) var (a) free (zz) free mem a");
    assert_eq!(engine.stack(), vec![Value::List(vec![st("b")]), st("a")]);
    assert!(log_of(&engine).contains("メモリ内部の変数 { 'b': 2 }\n"));
}

#[test]
fn type_names_the_kind() {
    assert_eq!(stack_of("1 type"), vec![st("number")]);
    assert_eq!(stack_of("(a) type"), vec![st("string")]);
    assert_eq!(stack_of("true type"), vec![st("bool")]);
    assert_eq!(stack_of("[] type"), vec![st("list")]);
}

#[test]
fn cast_coerces_to_the_named_kind() {
    assert_eq!(stack_of("(12) (number) cast"), vec![num("12")]);
    assert_eq!(stack_of("(x) (number) cast"), vec![num("0")]);
    assert_eq!(stack_of("true (number) cast"), vec![num("1")]);
    assert_eq!(stack_of("[1 2] (number) cast"), vec![num("2")]);
    assert_eq!(stack_of("12 (string) cast"), vec![st("12")]);
    assert_eq!(stack_of("[1 (a) [true]] (string) cast"), vec![st("[1 (a) [true]]")]);
    assert_eq!(stack_of("0 (bool) cast"), vec![Value::Bool(false)]);
    assert_eq!(stack_of("(a) (bool) cast"), vec![Value::Bool(true)]);
    assert_eq!(stack_of("(ab) (list) cast"), vec![Value::List(vec![st("a"), st("b")])]);
    assert_eq!(stack_of("7 (list) cast"), vec![Value::List(vec![num("7")])]);
    assert_eq!(stack_of("7 (other) cast"), vec![num("7")]);
}

#[test]
fn time_commands_go_to_the_host() {
    assert_eq!(stack_of("now-time"), vec![num("1234.5")]);
    assert_eq!(stack_of("1 0.5 sleep"), vec![num("1")]);
}

#[test]
fn the_host_is_asked_what_the_commands_need() {
    let mut engine = Executor::new();
    engine.evaluate_program("(4) (x) add".to_string());
    let mut asked = Vec::new();
    let mut reply = None;
    loop {
        match engine.step(reply.take()) {
            Request::Ask(q) => {
                reply = answer(&q, "");
                asked.push(q);
            }
            Request::Continue => {}
            _ => break,
        }
    }
    assert_eq!(
        asked,
        vec![
            Question::Parse(text("add")),
            Question::Parse(text("x")),
            Question::Parse(text("4")),
            Question::Calculate(Operator::Plus, text("4"), text("0")),
        ]
    );
    assert_eq!(engine.stack(), vec![num("4")]);
}

#[test]
fn an_answer_that_is_no_number_counts_as_nan() {
    let mut engine = Executor::new();
    engine.evaluate_program("now-time".to_string());
    assert_eq!(engine.step(None), Request::Ask(Question::Parse(text("now-time"))));
    assert_eq!(engine.step(None), Request::Ask(Question::Now));
    assert_eq!(engine.step(Some(st("soon"))), Request::Continue);
    assert_eq!(engine.stack(), vec![num("NaN")]);
}

#[test]
fn a_reply_that_nothing_called_for_is_dropped() {
    let mut engine = Executor::new();
    engine.evaluate_program("a".to_string());
    assert_eq!(engine.step(Some(num("1"))), Request::Ask(Question::Parse(text("a"))));
    assert_eq!(engine.step(None), Request::Continue);
    assert_eq!(engine.stack(), vec![st("a")]);
}

#[test]
fn a_string_in_brackets_is_pushed_without_the_host() {
    let mut engine = Executor::new();
    engine.evaluate_program("(12) [3]".to_string());
    assert_eq!(engine.step(Some(num("1"))), Request::Continue);
    assert_eq!(engine.stack(), vec![st("12")]);
    assert_eq!(engine.step(None), Request::Continue);
    assert_eq!(engine.step(None), Request::Ask(Question::Parse(text("3"))));
}

#[test]
fn the_trace_shows_the_stack_before_each_token_and_at_the_end() {
    let engine = run("5 (a)");
    assert_eq!(
        log_of(&engine),
        "Stack〔  〕 ←  5\nStack〔 5 〕 ←  (a)\nStack〔 5 | (a) 〕\n"
    );
}

#[test]
fn the_trace_of_a_nested_program() {
    let engine = run("[1]");
    assert_eq!(
        log_of(&engine),
        "Stack〔  〕 ←  [1]\nStack〔  〕 ←  1\nStack〔 1 〕\nStack〔 [1] 〕\n"
    );
}

#[test]
fn an_empty_program_finishes_with_one_line_of_trace() {
    let engine = run("   ");
    assert_eq!(engine.stack(), vec![]);
    assert_eq!(log_of(&engine), "Stack〔  〕\n");
    assert!(engine.is_finished());
}

#[test]
fn a_new_engine_is_finished() {
    let mut engine = Executor::new();
    assert!(engine.is_finished());
    assert_eq!(engine.step(None), Request::Finished);
    assert_eq!(engine.result().log(), "");
}

#[test]
fn two_programs_share_stack_and_store() {
    let mut engine = Executor::new();
    engine.evaluate_program("1 (a) var 2".to_string());
    let mut reply = None;
    loop {
        match engine.step(reply.take()) {
            Request::Ask(q) => reply = answer(&q, ""),
            Request::Continue => {}
            _ => break,
        }
    }
    engine.evaluate_program("a add".to_string());
    loop {
        match engine.step(reply.take()) {
            Request::Ask(q) => reply = answer(&q, ""),
            Request::Continue => {}
            _ => break,
        }
    }
    assert_eq!(engine.stack(), vec![num("3")]);
}

#[test]
fn the_engine_shows_its_stack_and_its_store_on_demand() {
    let mut engine = run("1 (a) var (s)");
    let before = log_of(&engine);
    engine.show_stack();
    engine.show_variables();
    engine.log(&text("y"));
    engine.print(&text("x"));
    assert_eq!(
        log_of(&engine),
        format!("{}Stack〔 (s) 〕メモリ内部の変数 {{ 'a': 1 }}\ny", before)
    );
    assert_eq!(engine.result().output(), "x");
    assert_eq!(engine.pop_stack(), st("s"));
    assert_eq!(engine.pop_stack(), st(""));
    assert!(log_of(&engine).ends_with(UNDERFLOW));
    assert_eq!(engine.stack(), vec![]);
}

#[test]
fn a_program_begun_while_a_question_is_open_runs_first() {
    let mut engine = Executor::new();
    engine.evaluate_program("a".to_string());
    assert_eq!(engine.step(None), Request::Ask(Question::Parse(text("a"))));
    engine.evaluate_program("b".to_string());
    let mut reply = None;
    loop {
        match engine.step(reply.take()) {
            Request::Ask(q) => reply = answer(&q, ""),
            Request::Continue => {}
            _ => break,
        }
    }
    assert_eq!(engine.stack(), vec![st("b"), st("a")]);
}
