use soop::{deep_to_exp, eval, parse, print, Env};

fn run(text: &str, expected_output: &str) {
    let exp = parse(text);
    let deep = eval(Env::new(), exp);
    let exp = deep_to_exp(deep);
    let output = print(exp);
    println!("output should match expected output");
    assert_eq!(output, expected_output);

    let exp = parse(&output);
    let deep = eval(Env::new(), exp);
    let exp = deep_to_exp(deep);
    let eval_output = print(exp);
    println!("eval(output) should match output");
    assert_eq!(eval_output, output);
}

const BOOL: &str = "-- negation by pattern matching on symbols
not = (:true -> :false), (:false -> :true);
not :false
";

const FUNCTION: &str = "/* functions are curried */
id = x -> x;
const = x -> y -> x;
id (const :d :e)
";

const INHERITANCE: &str = "greet = name -> (name, :says, :hello);
shout = name -> (name, :says, :YEAH);
person = (:greet -> greet), (:shout -> shout);
-- `loud` overrides `greet` and inherits the rest from `person`
loud = (:greet -> x -> (person :greet x, :to, :robert)), person;
loud :greet :alice, :and, loud :shout :alice
";

const LIST: &str = "not = (:true -> :false), (:false -> :true);
head = (x, xs) -> x;
tail = (x, xs) -> xs;
list = :true, :false, :nil;
not (head list), not (head (tail list)), tail (tail list)
";

const MAP: &str = "next = (:alex -> :bob), (:bob -> :charlie), (:charlie -> :alex);
start = :alex;
start, next start, next (next start)
";

const NUMBER: &str = "add = (:0 -> n -> n), ((:s, m) -> n -> (:s, add m n));
one = :s, :0;
two = :s, :s, :0;
add one two
";

const OPTION: &str = "lookup = (:a -> (:some, :yes)), (x -> :none);
lookup :a
";

const STATE: &str = "step = (:a -> :b), (:b -> :c), (:c -> :a);
step (step :a)
";

#[test]
fn test_bool() {
    run(BOOL, ":true");
}

#[test]
fn test_function() {
    run(FUNCTION, ":d");
}

#[test]
fn test_inheritance() {
    run(
        INHERITANCE,
        "((:alice, :says, :hello), :to, :robert), :and, :alice, :says, :YEAH",
    );
}

#[test]
fn test_list() {
    run(LIST, ":false, :true, :nil");
}

#[test]
fn test_map() {
    run(MAP, ":alex, :bob, :charlie");
}

#[test]
fn test_number() {
    run(NUMBER, ":s, :s, :s, :0");
}

#[test]
fn test_option() {
    run(OPTION, ":some, :yes");
}

#[test]
fn test_state() {
    run(STATE, ":c");
}
