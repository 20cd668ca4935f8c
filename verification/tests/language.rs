use soop::{
    deep_to_exp, deep_to_exp_with_fuel, eval, eval_with_fuel, interpret, parse, print, Deep,
    Env, Error, Exp, Op, Side, Thunk,
};

fn run(text: &str) -> String {
    print(deep_to_exp(eval(Env::new(), parse(text))))
}

fn sym(s: &str) -> Exp {
    Exp::Sym(s.to_string())
}

fn var(s: &str) -> Exp {
    Exp::Var(s.to_string())
}

fn cons(l: Exp, r: Exp) -> Exp {
    Exp::Cons(Box::new(l), Box::new(r))
}

fn app(l: Exp, r: Exp) -> Exp {
    Exp::App(Box::new(l), Box::new(r))
}

fn fun(l: Exp, r: Exp) -> Exp {
    Exp::Fun(Box::new(l), Box::new(r))
}

#[test]
fn parses_symbols_and_variables() {
    assert_eq!(parse(":abc"), sym("abc"));
    assert_eq!(parse("x_1"), var("x_1"));
    assert_eq!(parse("  \t\n:a \n"), sym("a"));
}

#[test]
fn application_associates_to_the_left() {
    assert_eq!(parse("f a b"), app(app(var("f"), var("a")), var("b")));
    assert_eq!(parse("f (a b)"), app(var("f"), app(var("a"), var("b"))));
}

#[test]
fn arrows_and_pairs_associate_to_the_right() {
    assert_eq!(parse("a -> b -> c"), fun(var("a"), fun(var("b"), var("c"))));
    assert_eq!(parse(":a, :b, :c"), cons(sym("a"), cons(sym("b"), sym("c"))));
    assert_eq!(parse("(:a, :b), :c"), cons(cons(sym("a"), sym("b")), sym("c")));
}

#[test]
fn operators_bind_by_precedence() {
    assert_eq!(parse("a, b -> c"), cons(var("a"), fun(var("b"), var("c"))));
    assert_eq!(parse("a -> f b, c"), cons(fun(var("a"), app(var("f"), var("b"))), var("c")));
    assert_eq!(
        parse("x = :a, :b; x"),
        Exp::Let("x".to_string(), Box::new(cons(sym("a"), sym("b"))), Box::new(var("x")))
    );
}

#[test]
fn comments_are_blanks() {
    assert_eq!(parse("-- a comment\n:a /* another\n one */ -- last"), sym("a"));
    assert_eq!(parse("f/**/a"), app(var("f"), var("a")));
}

#[test]
fn misplaced_equals_is_an_error() {
    match parse("a = b") {
        Exp::Error(Error::UnexpectedEquals(_)) => {},
        other => panic!("unexpected {:?}", other),
    }
    match parse("a; b") {
        Exp::Error(Error::ExpectedEquals(_)) => {},
        other => panic!("unexpected {:?}", other),
    }
    match parse("(a b) = c; d") {
        Exp::Error(Error::ExpectedVar(_)) => {},
        other => panic!("unexpected {:?}", other),
    }
}

#[test]
fn parse_errors_carry_the_message_of_nom() {
    let expected_tag = nom::Err::Error(nom::error::Error::new("", nom::error::ErrorKind::Tag)).to_string();
    assert_eq!(parse(""), Exp::Error(Error::ParseError(expected_tag)));
    let expected_eof = nom::Err::Error(nom::error::Error::new(") :b", nom::error::ErrorKind::Eof)).to_string();
    assert_eq!(parse(":a ) :b"), Exp::Error(Error::ParseError(expected_eof)));
    let expected_open = nom::Err::Error(nom::error::Error::new("(:a", nom::error::ErrorKind::Tag)).to_string();
    assert_eq!(parse("  (:a"), Exp::Error(Error::ParseError(expected_open)));
    assert_eq!(
        parse(":a ) :b"),
        Exp::Error(Error::ParseError("Parsing Error: Error { input: \") :b\", code: Eof }".to_string()))
    );
    assert_eq!(
        parse("  (:a"),
        Exp::Error(Error::ParseError("Parsing Error: Error { input: \"(:a\", code: Tag }".to_string()))
    );
}

#[test]
fn printing_puts_parentheses_where_needed() {
    assert_eq!(print(parse("(:a, :b), :c")), "(:a, :b), :c");
    assert_eq!(print(parse(":a, (:b, :c)")), ":a, :b, :c");
    assert_eq!(print(parse("f (g x) y")), "f (g x) y");
    assert_eq!(print(parse("(a -> b) -> c")), "(a -> b) -> c");
    assert_eq!(print(parse("x -> (y, z)")), "x -> (y, z)");
    assert_eq!(print(parse("(x -> y), z")), "x -> y, z");
    assert_eq!(print(parse("x = :a; x")), "x == :a; x");
}

#[test]
fn printing_an_error_writes_it_as_debug_does() {
    let e = Error::PatternMatchSym("a".to_string(), "b \"q\"".to_string());
    assert_eq!(print(Exp::Error(e)), format!("{:?}", Error::PatternMatchSym("a".to_string(), "b \"q\"".to_string())));
    let e = Error::ApplySym(Box::new(soop::Data::Cons(
        Env::Bind("x".to_string(), Box::new(Thunk(Env::Empty, sym("y"))), Box::new(Env::Empty)),
        Box::new(var("l")),
        Box::new(app(var("f"), var("g"))),
    )));
    assert_eq!(
        print(Exp::Error(e)),
        "ApplySym(Cons({\"x\": Thunk({}, Sym(\"y\"))}, Var(\"l\"), App(Var(\"f\"), Var(\"g\"))))"
    );
    let b = Error::UnexpectedEquals(Box::new(soop::Bexp::Binary(
        Box::new(soop::Bexp::Var("a".to_string())),
        Op::Equals,
        Box::new(soop::Bexp::Parens(Box::new(soop::Bexp::Sym("b".to_string())))),
    )));
    let text = format!("{:?}", b);
    assert_eq!(print(Exp::Error(b)), text);
}

#[test]
fn undefined_variables_evaluate_to_an_error() {
    assert_eq!(run("x"), format!("{:?}", Error::Undefined("x".to_string())));
}

#[test]
fn applying_a_symbol_is_an_error() {
    assert_eq!(
        run(":a :b"),
        format!("{:?}", Error::ApplySym(Box::new(soop::Data::Sym("a".to_string()))))
    );
}

#[test]
fn failed_matches_are_errors() {
    assert_eq!(
        run("(:a -> :b) :c"),
        format!("{:?}", Error::PatternMatchSym("a".to_string(), "c".to_string()))
    );
    assert_eq!(run("(f x -> x) :c"), format!("{:?}", Error::PatternMatchExp(Box::new(app(var("f"), var("x"))), Box::new(sym("c")))));
}

#[test]
fn a_pair_of_functions_falls_back_to_its_right_side() {
    assert_eq!(run("((:a -> :one), (:b -> :two)) :b"), ":two");
    assert_eq!(run("((:a -> :one), (x -> :other)) :z"), ":other");
}

#[test]
fn patterns_take_pairs_apart() {
    assert_eq!(run("((x, y) -> (y, x)) (:a, :b)"), ":b, :a");
}

#[test]
fn let_binds_a_delayed_expression() {
    assert_eq!(run("x = :a; y = x; (x, y)"), ":a, :a");
    assert_eq!(run("loop = loop; :done"), ":done");
}

#[test]
fn functions_read_back_with_their_environment() {
    assert_eq!(run("x -> x"), "x -> x");
    assert_eq!(run("y = :b; x -> y"), "y == :b; x -> y");
}

#[test]
fn evaluation_with_fuel() {
    assert_eq!(eval_with_fuel(0, Env::new(), sym("a")), None);
    assert_eq!(eval_with_fuel(2, Env::new(), sym("a")), Some(Deep::Sym("a".to_string())));
    assert_eq!(eval_with_fuel(1, Env::new(), sym("a")), None);
    let looping = parse("f = x -> x x; f f");
    assert_eq!(eval_with_fuel(1000, Env::new(), looping), None);
}

#[test]
fn a_larger_budget_keeps_the_result() {
    let program = "not = (:true -> :false), (:false -> :true); not (not :true)";
    let small = eval_with_fuel(30, Env::new(), parse(program));
    let large = eval_with_fuel(100000, Env::new(), parse(program));
    assert!(small.is_some());
    assert_eq!(small, large);
}

#[test]
fn reading_back_with_fuel() {
    assert_eq!(deep_to_exp_with_fuel(0, Deep::Sym("a".to_string())), None);
    assert_eq!(deep_to_exp_with_fuel(1, Deep::Sym("a".to_string())), Some(sym("a")));
}

#[test]
fn data_print_to_a_fixed_point() {
    let text = "(:a, :b_2), :c, (:d, :e), :f";
    assert_eq!(run(text), text);
    assert_eq!(interpret(text), Some(text.to_string()));
}

#[test]
fn interpret_runs_a_whole_program() {
    assert_eq!(interpret("id = x -> x; id :ok"), Some(":ok".to_string()));
}

#[test]
fn environments_replace_earlier_bindings() {
    let env = Env::new()
        .insert("x".to_string(), Thunk(Env::Empty, sym("a")))
        .insert("y".to_string(), Thunk(Env::Empty, sym("b")))
        .insert("x".to_string(), Thunk(Env::Empty, sym("c")));
    assert_eq!(env.clone().take(&"x".to_string()), Some(Thunk(Env::Empty, sym("c"))));
    assert_eq!(env.clone().take(&"z".to_string()), None);
    match env {
        Env::Bind(name, _, rest) => {
            assert_eq!(name, "x");
            assert_eq!(*rest, Env::Bind("y".to_string(), Box::new(Thunk(Env::Empty, sym("b"))), Box::new(Env::Empty)));
        },
        Env::Empty => panic!("empty environment"),
    }
}

#[test]
fn extending_prefers_the_new_bindings() {
    let old = Env::new()
        .insert("x".to_string(), Thunk(Env::Empty, sym("a")))
        .insert("y".to_string(), Thunk(Env::Empty, sym("b")));
    let new = Env::new().insert("x".to_string(), Thunk(Env::Empty, sym("c")));
    let env = old.extend(new);
    assert_eq!(env.clone().take(&"x".to_string()), Some(Thunk(Env::Empty, sym("c"))));
    assert_eq!(env.take(&"y".to_string()), Some(Thunk(Env::Empty, sym("b"))));
}

#[test]
fn operators_know_their_side() {
    assert_eq!(Op::Empty.assoc(), Side::Left);
    assert_eq!(Op::Comma.assoc(), Side::Right);
    assert_eq!(Op::Semicolon.assoc(), Side::Right);
    assert!(Op::Semicolon.precedence() < Op::Empty.precedence());
}

#[test]
fn environments_in_errors_are_written_as_maps() {
    assert_eq!(
        run("(:a -> :b) (y -> y)"),
        "PatternMatchData(Sym(\"a\"), Fun({}, Var(\"y\"), Var(\"y\")))"
    );
    assert_eq!(
        run("x = :a; (:s -> :t) (z -> x)"),
        "PatternMatchData(Sym(\"s\"), Fun({\"x\": Thunk({}, Sym(\"a\"))}, Var(\"z\"), Var(\"x\")))"
    );
    assert_eq!(
        run("x = :a; y = :b; (:s -> :t) (z -> y)"),
        "PatternMatchData(Sym(\"s\"), Fun({\"y\": Thunk({\"x\": Thunk({}, Sym(\"a\"))}, Sym(\"b\")), \"x\": Thunk({}, Sym(\"a\"))}, Var(\"z\"), Var(\"y\")))"
    );
}

#[test]
fn functions_read_back_with_one_binding_per_name() {
    let deep = eval(Env::new(), parse("x = :a; y = :b; z -> z"));
    let exp = deep_to_exp(deep);
    let expected = Exp::Let(
        "x".to_string(),
        Box::new(sym("a")),
        Box::new(Exp::Let("y".to_string(), Box::new(sym("b")), Box::new(fun(var("z"), var("z"))))),
    );
    assert_eq!(exp, expected);
    assert_eq!(print(exp), "x == :a; y == :b; z -> z");
}

#[test]
fn pairs_and_symbols_read_back_as_themselves_in_any_environment() {
    let env = Env::new()
        .insert("x".to_string(), Thunk(Env::Empty, sym("a")))
        .insert("b".to_string(), Thunk(Env::Empty, sym("z")));
    let e = cons(sym("a"), cons(sym("b"), sym("c d")));
    assert_eq!(deep_to_exp(eval(env, e.clone())), e);
}

#[test]
fn a_pair_evaluates_side_by_side() {
    let env = Env::new().insert("x".to_string(), Thunk(Env::Empty, sym("a")));
    let l = var("x");
    let r = app(fun(var("y"), var("y")), sym("b"));
    let whole = eval(env.clone(), cons(l.clone(), r.clone()));
    let expected = Deep::Cons(Box::new(eval(env.clone(), l)), Box::new(eval(env, r)));
    assert_eq!(whole, expected);
    assert_eq!(expected, Deep::Cons(Box::new(Deep::Sym("a".to_string())), Box::new(Deep::Sym("b".to_string()))));
}

#[test]
fn program_outputs_of_pairs_are_fixed_points() {
    let out = interpret("f = (x, y) -> (y, x); f (:a, :b, :c)").unwrap();
    assert_eq!(out, "(:b, :c), :a");
    assert_eq!(interpret(&out).unwrap(), out);
}
