use stack_lang::command::{evaluate_token, execute_command, Command, Control, Effect, Sweep};
use stack_lang::host::{find_fact, Fact, Operator, Question};
use stack_lang::numeral::{
    count_numeral, index_of, integer_numeral, names_zero, numeral_of, status_of, whole_of,
};
use stack_lang::order::{sort_texts, text_precedes};
use stack_lang::report::Result;
use stack_lang::store::Memory;
use stack_lang::syntax::{analyze_syntax, holds_hash, is_bracketed, is_quoted, strip_hash};
use stack_lang::text::{
    find, is_space, is_word, join_texts, repeat_text, replace_text, same_text, slice,
    split_text, squeeze_text, string_of_text, text_of, words_of,
};
use stack_lang::value::{Kind, Value};

fn text(s: &str) -> Vec<char> {
    s.chars().collect()
}

fn string(t: &[char]) -> String {
    t.iter().collect()
}

fn strings(parts: &[Vec<char>]) -> Vec<String> {
    parts.iter().map(|p| string(p)).collect()
}

fn num(s: &str) -> Value {
    Value::Number(text(s))
}

fn st(s: &str) -> Value {
    Value::String(text(s))
}

fn tokens(src: &str) -> Vec<String> {
    strings(&analyze_syntax(&text(src)))
}

const SAMPLES: [&str; 12] = [
    "", "a", "aa", "aaa", "abab", "a,b,,c", ",", ",,", "héllo wörld", "  x  y ", "ab", "b",
];

#[test]
fn text_of_and_back() {
    for s in SAMPLES {
        assert_eq!(text_of(s), text(s));
        assert_eq!(string_of_text(&text(s)), s);
    }
    assert_eq!(string_of_text(&text("日本語 ü \u{10FFFF}")), "日本語 ü \u{10FFFF}");
}

#[test]
fn same_text_is_equality() {
    for a in SAMPLES {
        for b in SAMPLES {
            assert_eq!(same_text(&text(a), &text(b)), a == b);
            assert_eq!(is_word(&text(a), b), a == b);
        }
    }
}

#[test]
fn slice_takes_a_range() {
    assert_eq!(slice(&text("hello"), 1, 3), text("el"));
    assert_eq!(slice(&text("hello"), 0, 5), text("hello"));
    assert_eq!(slice(&text("hello"), 2, 2), text(""));
}

#[test]
fn find_agrees_with_contains() {
    for a in SAMPLES {
        for b in SAMPLES {
            assert_eq!(find(&text(a), &text(b)), a.contains(b), "{:?} {:?}", a, b);
        }
    }
}

#[test]
fn split_agrees_with_std() {
    for a in SAMPLES {
        for b in SAMPLES {
            let expected: Vec<String> = a.split(b).map(|x| x.to_string()).collect();
            assert_eq!(strings(&split_text(&text(a), &text(b))), expected, "{:?} {:?}", a, b);
        }
    }
}

#[test]
fn replace_agrees_with_std() {
    for a in SAMPLES {
        for b in SAMPLES {
            for c in ["", "-", "a", "xyz"] {
                assert_eq!(
                    string(&replace_text(&text(a), &text(b), &text(c))),
                    a.replace(b, c),
                    "{:?} {:?} {:?}",
                    a,
                    b,
                    c
                );
            }
        }
    }
}

#[test]
fn join_agrees_with_std() {
    let parts = vec![text("a"), text(""), text("bc")];
    assert_eq!(string(&join_texts(&parts, &text(", "))), "a, , bc");
    assert_eq!(string(&join_texts(&vec![], &text(", "))), "");
    assert_eq!(string(&join_texts(&vec![text("x")], &text(", "))), "x");
}

#[test]
fn repeat_agrees_with_std() {
    for a in SAMPLES {
        for n in 0..4 {
            assert_eq!(string(&repeat_text(&text(a), n)), a.repeat(n));
        }
    }
    assert_eq!(repeat_text(&text(""), usize::MAX), text(""));
}

#[test]
fn is_space_agrees_with_std_on_every_character() {
    for n in 0..=0x10FFFFu32 {
        if let Some(c) = char::from_u32(n) {
            assert_eq!(is_space(c), c.is_whitespace(), "U+{:04X}", n);
        }
    }
}

#[test]
fn words_and_squeeze_agree_with_std() {
    for s in ["", " ", "a", "  a  b\t\nc ", "a\u{3000}b", "a\u{A0}b", "(x  y) 1", "\u{2003}"] {
        let expected: Vec<String> = s.split_whitespace().map(|x| x.to_string()).collect();
        assert_eq!(strings(&words_of(&text(s))), expected);
        assert_eq!(string(&squeeze_text(&text(s))), expected.join(" "));
    }
}

#[test]
fn text_order_agrees_with_std() {
    let samples = ["", "a", "A", "aa", "ab", "b", "é", "日", "\u{10FFFF}", "a\u{0}", "10", "9"];
    for a in samples {
        for b in samples {
            assert_eq!(text_precedes(&text(a), &text(b)), a <= b, "{:?} {:?}", a, b);
        }
    }
}

#[test]
fn sort_agrees_with_std() {
    let items = ["b", "a", "", "日", "10", "9", "a", "B", "ab", "é"];
    let mut expected: Vec<String> = items.iter().map(|x| x.to_string()).collect();
    expected.sort();
    let sorted = sort_texts(items.iter().map(|x| text(x)).collect());
    assert_eq!(strings(&sorted), expected);
    assert_eq!(sort_texts(vec![]), Vec::<Vec<char>>::new());
}

#[test]
fn a_count_is_written_as_its_double_is() {
    let counts: [u64; 12] = [
        0,
        1,
        9,
        10,
        11,
        99,
        100,
        65535,
        4294967295,
        4294967296,
        9007199254740991,
        9007199254740992,
    ];
    for n in counts {
        assert_eq!(string(&numeral_of(n)), (n as f64).to_string());
        assert_eq!(string(&numeral_of(n)), n.to_string());
    }
    assert_eq!(string(&numeral_of(u64::MAX)), "18446744073709551615");
    assert_eq!(string(&count_numeral(1234)), "1234");
}

#[test]
fn a_numeral_is_read_as_its_double_is_cast() {
    let samples: [f64; 30] = [
        0.0,
        -0.0,
        0.5,
        -0.5,
        0.999999,
        1.0,
        1.5,
        -1.5,
        2.9999999999999996,
        255.0,
        256.7,
        65535.9,
        2147483647.0,
        2147483647.9,
        2147483648.0,
        -2147483648.0,
        -2147483648.9,
        -2147483649.0,
        4294967295.0,
        4294967295.5,
        4294967296.0,
        9007199254740992.0,
        1e16,
        -1e16,
        1e-7,
        1e-320,
        f64::NAN,
        f64::INFINITY,
        f64::NEG_INFINITY,
        5e-324,
    ];
    for x in samples {
        let t = text(&x.to_string());
        assert_eq!(index_of(&t), x as usize, "{}", x);
        assert_eq!(whole_of(&t), (x as i128).clamp(-(1 << 64), 1 << 64), "{}", x);
        assert_eq!(status_of(&t), x as i32, "{}", x);
        assert_eq!(names_zero(&t), x == 0.0, "{}", x);
    }
    assert_eq!(index_of(&text("1e300")), 1);
    for x in [1e19f64, 1e20, 1e300, f64::MAX, -1e19, f64::MIN] {
        let t = text(&x.to_string());
        assert_eq!(index_of(&t), x as usize, "{}", x);
        assert_eq!(whole_of(&t), (x as i128).clamp(-(1 << 64), 1 << 64), "{}", x);
        assert_eq!(status_of(&t), x as i32, "{}", x);
    }
}

#[test]
fn an_integer_is_written_with_its_sign() {
    for n in [0i128, 1, -1, 9, -10, 65535, -4294967296, 1 << 64, -(1 << 64)] {
        assert_eq!(string(&integer_numeral(n)), n.to_string());
    }
    for n in [0i64, -1, -3, 7, -9007199254740992, 9007199254740992] {
        assert_eq!(string(&integer_numeral(n as i128)), (n as f64).to_string());
        assert_eq!(whole_of(&integer_numeral(n as i128)), n as i128);
    }
    assert_eq!(string(&integer_numeral(i128::MIN)), i128::MIN.to_string());
    assert_eq!(string(&integer_numeral(i128::MAX)), i128::MAX.to_string());
}

#[test]
fn a_numeral_names_zero_when_all_its_digits_are_zeros() {
    for s in ["0", "-0", "0.0", "-0.0", "00", "0.", ".0", "-.0", "0.000", "000.0"] {
        assert!(names_zero(&text(s)), "{}", s);
        assert_eq!(s.parse::<f64>().unwrap(), 0.0, "{}", s);
    }
    for s in ["", "-", ".", "-.", "1", "0.1", "10", "01", "0.0.0", "0..", "NaN", "inf", "0x", "--0", "o"] {
        assert!(!names_zero(&text(s)), "{}", s);
        assert!(s.parse::<f64>().map(|x| x != 0.0).unwrap_or(true), "{}", s);
    }
}

#[test]
fn a_numeral_that_is_no_numeral_reads_as_far_as_its_digits_go() {
    assert_eq!(index_of(&text("12abc")), 12);
    assert_eq!(index_of(&text("abc")), 0);
    assert_eq!(index_of(&text("")), 0);
    assert_eq!(index_of(&text("-")), 0);
    assert_eq!(status_of(&text("-12.9")), -12);
    assert_eq!(index_of(&text("info")), 0);
    assert_eq!(index_of(&text("inf")), usize::MAX);
    assert_eq!(status_of(&text("-inf")), i32::MIN);
    assert_eq!(whole_of(&text("-12abc")), -12);
    assert_eq!(whole_of(&text("-inf")), -(1 << 64));
    assert_eq!(whole_of(&text("NaN")), 0);
}

#[test]
fn the_tokenizer_splits_at_plain_spaces() {
    assert_eq!(tokens("a b  c"), vec!["a", "b", "c"]);
    assert_eq!(tokens(""), Vec::<String>::new());
    assert_eq!(tokens("   "), Vec::<String>::new());
    assert_eq!(tokens(" a "), vec!["a"]);
    assert_eq!(tokens("a\tb\nc\rd\u{3000}e"), vec!["a", "b", "c", "d", "e"]);
    assert_eq!(tokens("a\u{A0}b"), vec!["a\u{A0}b"]);
}

#[test]
fn the_tokenizer_keeps_brackets_and_comments_whole() {
    assert_eq!(tokens("(a b) c"), vec!["(a b)", "c"]);
    assert_eq!(tokens("[1 2 [3 4]] 5"), vec!["[1 2 [3 4]]", "5"]);
    assert_eq!(tokens("#a b# c"), vec!["#a b#", "c"]);
    assert_eq!(tokens("(a (b c) d) e"), vec!["(a (b c) d)", "e"]);
    assert_eq!(tokens("(a\nb)"), vec!["(a b)"]);
    assert_eq!(tokens("x(a b)y z"), vec!["x(a b)y", "z"]);
}

#[test]
fn the_tokenizer_counts_square_brackets_only_outside_round_ones() {
    assert_eq!(tokens("([ ) a b"), vec!["([ )", "a", "b"]);
    assert_eq!(tokens("[( ] ) ] a"), vec!["[( ] ) ]", "a"]);
    assert_eq!(tokens("[ ( ] a"), vec!["[ ( ] a"]);
}

#[test]
fn the_tokenizer_never_recovers_from_a_bracket_left_open_or_closed_too_often() {
    assert_eq!(tokens("(a b c"), vec!["(a b c"]);
    assert_eq!(tokens(") a b"), vec![") a b"]);
    assert_eq!(tokens("] a b"), vec!["] a b"]);
    assert_eq!(tokens(") a ( b c"), vec![") a (", "b", "c"]);
    assert_eq!(tokens("# a b"), vec!["# a b"]);
    assert_eq!(tokens("a # b # c # d"), vec!["a", "# b #", "c", "# d"]);
}

#[test]
fn a_hash_toggles_inside_brackets_too() {
    assert_eq!(tokens("(#) a b # c"), vec!["(#) a b #", "c"]);
}

#[test]
fn token_shapes() {
    assert!(is_quoted(&text("(a)")));
    assert!(is_quoted(&text("()")));
    assert!(!is_quoted(&text("(")));
    assert!(!is_quoted(&text(")")));
    assert!(!is_quoted(&text("")));
    assert!(!is_quoted(&text("(a")));
    assert!(is_bracketed(&text("[a]")));
    assert!(!is_bracketed(&text("[")));
    assert!(!is_bracketed(&text("(a]")));
    assert!(holds_hash(&text("a#b")));
    assert!(!holds_hash(&text("ab")));
    assert_eq!(strip_hash(&text("#a#b#")), text("ab"));
}

#[test]
fn every_value_coerces_to_every_kind() {
    let values = vec![
        num("0"),
        num("-0"),
        num("1.5"),
        num("NaN"),
        st(""),
        st("12"),
        st("abc"),
        Value::Bool(true),
        Value::Bool(false),
        Value::List(vec![]),
        Value::List(vec![num("1"), st("a"), Value::List(vec![Value::Bool(true)])]),
    ];
    let kinds = [Kind::Number, Kind::String, Kind::Bool, Kind::List];
    for v in &values {
        for k in kinds {
            for answer in [None, Some(num("12")), Some(st("x"))] {
                let made = v.coerce(k, &answer);
                assert_eq!(made.kind(), k);
                if v.kind() == k {
                    assert_eq!(&made, v);
                }
            }
        }
        assert_eq!(&v.coerce(Kind::Any, &None), v);
        assert_eq!(&v.copy(), v);
    }
}

#[test]
fn coercion_to_a_number() {
    assert_eq!(num("1.5").get_number(&None), text("1.5"));
    assert_eq!(Value::Bool(true).get_number(&None), text("1"));
    assert_eq!(Value::Bool(false).get_number(&None), text("0"));
    assert_eq!(Value::List(vec![num("7"), num("8")]).get_number(&None), text("2"));
    assert_eq!(st("12").get_number(&Some(num("12"))), text("12"));
    assert_eq!(st("abc").get_number(&None), text("0"));
    assert_eq!(st("abc").get_number(&Some(st("abc"))), text("0"));
    assert_eq!(st("12").number_question(), Some(Question::Parse(text("12"))));
    assert_eq!(num("12").number_question(), None);
    assert_eq!(st("12").coercion_question(Kind::Number), Some(Question::Parse(text("12"))));
    assert_eq!(st("12").coercion_question(Kind::List), None);
}

#[test]
fn coercion_to_a_string_and_display() {
    let list = Value::List(vec![num("1"), st("a b"), Value::Bool(false), Value::List(vec![])]);
    assert_eq!(string(&list.display()), "[1 (a b) false []]");
    assert_eq!(string(&list.get_string()), "[1 (a b) false []]");
    assert_eq!(string(&st("a").display()), "(a)");
    assert_eq!(string(&st("a").get_string()), "a");
    assert_eq!(string(&num("-0").get_string()), "-0");
    assert_eq!(string(&Value::Bool(true).get_string()), "true");
    assert_eq!(string(&Value::List(vec![]).display()), "[]");
}

#[test]
fn coercion_to_a_truth_value() {
    assert!(num("1").get_bool());
    assert!(num("NaN").get_bool());
    assert!(num("-inf").get_bool());
    assert!(!num("0").get_bool());
    assert!(!num("-0").get_bool());
    assert!(st("false").get_bool());
    assert!(!st("").get_bool());
    assert!(Value::List(vec![Value::Bool(false)]).get_bool());
    assert!(!Value::List(vec![]).get_bool());
}

#[test]
fn coercion_to_a_list() {
    assert_eq!(st("hé!").get_list(), vec![st("h"), st("é"), st("!")]);
    assert_eq!(st("").get_list(), Vec::<Value>::new());
    assert_eq!(num("5").get_list(), vec![num("5")]);
    assert_eq!(Value::Bool(true).get_list(), vec![Value::Bool(true)]);
    assert_eq!(Value::List(vec![num("1")]).get_list(), vec![num("1")]);
}

#[test]
fn kinds_have_names() {
    for k in [Kind::Number, Kind::String, Kind::Bool, Kind::List] {
        assert_eq!(Kind::named(&k.name()), k);
    }
    assert_eq!(Kind::named(&text("Number")), Kind::Any);
    assert_eq!(Value::string("a"), st("a"));
    assert_eq!(Value::number("1"), num("1"));
}

#[test]
fn the_store_keeps_one_value_for_each_name() {
    let mut m = Memory::new();
    assert_eq!(m.get(&text("a")), None);
    m.set(text("a"), num("1"));
    m.set(text("b"), st("x"));
    m.set(text("a"), num("2"));
    assert_eq!(m.get(&text("a")), Some(num("2")));
    assert_eq!(m.names(), vec![st("a"), st("b")]);
    assert_eq!(string(&m.show()), "メモリ内部の変数 { 'a': 2, 'b': (x) }\n");
    m.remove(&text("a"));
    m.remove(&text("zz"));
    assert_eq!(m.get(&text("a")), None);
    assert_eq!(m.names(), vec![st("b")]);
    m.remove(&text("b"));
    assert_eq!(string(&m.show()), "メモリ内部の変数 {  }\n");
}

#[test]
fn commands_have_names() {
    assert_eq!(Command::named(&text("add")), Some(Command::Calculate(Operator::Plus)));
    assert_eq!(Command::named(&text("size-stack")), Some(Command::SizeStack));
    assert_eq!(Command::named(&text("filter")), Some(Command::Each(Sweep::Select)));
    assert_eq!(Command::named(&text("Add")), None);
    assert_eq!(Command::named(&text("")), None);
    let names = [
        "add", "sub", "mul", "div", "mod", "pow", "round", "and", "or", "not", "equal", "less",
        "repeat", "decode", "encode", "concat", "replace", "split", "join", "find", "print",
        "input", "eval", "if", "while", "exit", "get", "set", "del", "append", "insert", "sort",
        "reverse", "for", "map", "filter", "range", "len", "pop", "size-stack", "var", "type",
        "cast", "mem", "free", "copy", "swap", "now-time", "sleep",
    ];
    let mut seen = Vec::new();
    for name in names {
        let c = Command::named(&text(name)).unwrap();
        assert!(!seen.contains(&c), "{}", name);
        assert!(c.signature().len() <= 3);
        seen.push(c);
    }
}

#[test]
fn a_command_asks_before_it_acts() {
    let stack = vec![st("4"), num("3")];
    let memory = Memory::new();
    let c = Command::Calculate(Operator::Minus);
    let mut facts = Vec::new();
    assert_eq!(execute_command(c, &stack, &memory, &facts), Err(Question::Parse(text("4"))));
    facts.push(Fact { question: Question::Parse(text("4")), answer: Some(num("4")) });
    let q = Question::Calculate(Operator::Minus, text("4"), text("3"));
    assert_eq!(execute_command(c, &stack, &memory, &facts), Err(q));
    facts.push(Fact {
        question: Question::Calculate(Operator::Minus, text("4"), text("3")),
        answer: Some(num("1")),
    });
    assert_eq!(find_fact(&facts, &Question::Parse(text("4"))), Some(0));
    assert_eq!(find_fact(&facts, &Question::Now), None);
    assert_eq!(
        execute_command(c, &stack, &memory, &facts),
        Ok(Effect::plain(2, vec![num("1")]))
    );
}

#[test]
fn a_token_asks_first_whether_it_is_a_number() {
    let memory = Memory::new();
    let mut facts = Vec::new();
    let token = text("true");
    assert_eq!(
        evaluate_token(&token, &vec![], &memory, &facts),
        Err(Question::Parse(text("true")))
    );
    facts.push(Fact { question: Question::Parse(text("true")), answer: None });
    assert_eq!(
        evaluate_token(&token, &vec![], &memory, &facts),
        Ok(Effect::plain(0, vec![Value::Bool(true)]))
    );
    let token = text("7");
    facts.push(Fact { question: Question::Parse(text("7")), answer: Some(num("7")) });
    assert_eq!(
        evaluate_token(&token, &vec![], &memory, &facts),
        Ok(Effect::plain(0, vec![num("7")]))
    );
}

#[test]
fn a_token_in_brackets_needs_no_answer() {
    let memory = Memory::new();
    let mut facts = Vec::new();
    assert_eq!(
        evaluate_token(&text("(a)"), &vec![], &memory, &facts),
        Ok(Effect::plain(0, vec![st("a")]))
    );
    let effect = evaluate_token(&text("[1  2]"), &vec![], &memory, &facts).unwrap();
    assert_eq!(effect.control, Control::Gather(text("1 2")));
    facts.push(Fact { question: Question::Parse(text("(1)")), answer: Some(num("1")) });
    assert_eq!(
        evaluate_token(&text("(1)"), &vec![], &memory, &facts),
        Ok(Effect::plain(0, vec![st("1")]))
    );
}

#[test]
fn a_result_holds_the_two_texts() {
    let r = Result::new("out".to_string(), "log".to_string());
    assert_eq!(r.output(), "out");
    assert_eq!(r.log(), "log");
}
