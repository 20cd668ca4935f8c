// The concrete syntax written with nom's combinators, used to check which
// texts the parser accepts and the messages it gives for the others.

use nom::{
    branch::alt,
    bytes::complete::{tag, take_until, take_while},
    character::complete::{alphanumeric1, char, multispace1},
    combinator::{all_consuming, recognize, success, value},
    multi::{many0, many1},
    sequence::{delimited, pair, preceded, tuple},
    IResult,
};
use soop::{parse, Error, Exp};

fn blanks(input: &str) -> IResult<&str, ()> {
    value(
        (),
        many0(alt((
            value((), multispace1),
            value((), pair(tag("--"), take_while(|c| c != '\n'))),
            value((), tuple((tag("/*"), take_until("*/"), tag("*/")))),
        ))),
    )(input)
}

fn name(input: &str) -> IResult<&str, &str> {
    recognize(many1(alt((alphanumeric1, tag("_")))))(input)
}

fn operand(input: &str) -> IResult<&str, ()> {
    alt((
        value((), delimited(char('('), expression, char(')'))),
        value((), preceded(char(':'), name)),
        value((), name),
    ))(input)
}

fn operator(input: &str) -> IResult<&str, ()> {
    alt((
        value((), char(';')),
        value((), char('=')),
        value((), char(',')),
        value((), tag("->")),
        value((), success(())),
    ))(input)
}

fn expression(input: &str) -> IResult<&str, ()> {
    let (input, _) = blanks(input)?;
    let (input, _) = operand(input)?;
    let (input, _) = many0(pair(preceded(blanks, operator), preceded(blanks, operand)))(input)?;
    blanks(input)
}

fn oracle(input: &str) -> Option<String> {
    match all_consuming(expression)(input) {
        Ok(_) => None,
        Err(e) => Some(e.to_string()),
    }
}

const TEXTS: [&str; 40] = [
    "",
    " ",
    "a",
    ":",
    "::a",
    ":a:",
    "a b",
    "a -",
    "a - b",
    "a -> ",
    "a ->",
    "->",
    "(a",
    "(a))",
    "a)",
    "(",
    ")",
    "()",
    "( )",
    "(a b) c",
    "a; b",
    "a = b; c",
    "a == b",
    "a ,, b",
    "-- only a comment",
    "/* unclosed",
    "a /* unclosed",
    "/**/a/**/",
    "a -- c\n b",
    "a\n-- c\n",
    "é",
    "a é",
    "x_y z9 _",
    "f (x, y) -> (y, x)",
    "a ; ; b",
    "(a -> ) b",
    ":a :b :c",
    "a\tb\r\nc",
    "\"quoted\"",
    "a /* x */ -> b",
];

#[test]
fn parse_errors_agree_with_the_combinators() {
    for text in TEXTS.iter() {
        let expected = oracle(text);
        let got = parse(text);
        match expected {
            Some(message) => assert_eq!(got, Exp::Error(Error::ParseError(message)), "text {:?}", text),
            None => match got {
                Exp::Error(Error::ParseError(m)) => panic!("text {:?} rejected: {}", text, m),
                _ => {},
            },
        }
    }
}
