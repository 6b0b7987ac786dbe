use shock::model::PrimitiveData;
use shock::parser::argument_list;
use shock::parser::block_commands;
use shock::parser::block_expression;
use shock::parser::boolean;
use shock::parser::character;
use shock::parser::command;
use shock::parser::command_arguments;
use shock::parser::command_expression;
use shock::parser::expression;
use shock::parser::expression_value;
use shock::parser::expressions;
use shock::parser::identifier;
use shock::parser::integer_decimal;
use shock::parser::is_identifier_char;
use shock::parser::is_identifier_initial;
use shock::parser::is_linespace;
use shock::parser::is_lowercase_alpha;
use shock::parser::operator_identifier;
use shock::parser::parse;
use shock::parser::primitive_value;
use shock::parser::procedure_expression;
use shock::parser::string;
use shock::parser::to_s;
use shock::parser::vec_to_string;
use shock::parser::Command;
use shock::parser::ExpressionValue;
use shock::parser::ParseError;

fn bare(text: &str) -> (String, ExpressionValue) {
    ("".to_owned(), ExpressionValue::Primitive(PrimitiveData::Name(text.to_owned())))
}

fn whole(value: i64) -> (String, ExpressionValue) {
    ("".to_owned(), ExpressionValue::Primitive(PrimitiveData::Int(value)))
}

fn call(name: &str, args: Vec<(String, ExpressionValue)>) -> Command {
    Command { name: name.to_owned(), args }
}

#[test]
fn both_forms_of_let_are_one_command() {
    let bare_form = parse("let x = 1\n").unwrap();
    assert_eq!(0, bare_form.0.len());
    assert_eq!(
        vec![ExpressionValue::Expression(call(
            "let",
            vec![bare("x"), ("=".to_owned(), ExpressionValue::Primitive(PrimitiveData::Int(1)))]
        ))],
        bare_form.1
    );
    let in_parentheses = parse("(let x 1);").unwrap();
    assert_eq!(0, in_parentheses.0.len());
    assert_eq!(
        vec![ExpressionValue::Expression(call("let", vec![bare("x"), whole(1)]))],
        in_parentheses.1
    );
}

#[test]
fn parse_reads_every_line() {
    let parsed = parse("(let x 1);(get x)\n5\r").unwrap().1;
    assert_eq!(3, parsed.len());
    assert_eq!(ExpressionValue::Expression(call("get", vec![bare("x")])), parsed[1]);
    assert_eq!(ExpressionValue::Primitive(PrimitiveData::Int(5)), parsed[2]);
    assert_eq!(0, parse("").unwrap().1.len());
}

#[test]
fn parse_accepts_spaces_around_an_expression() {
    let parsed = parse("  (get x) \t;").unwrap().1;
    assert_eq!(vec![ExpressionValue::Expression(call("get", vec![bare("x")]))], parsed);
}

#[test]
fn parse_fails_with_what_is_left() {
    assert_eq!(Err(ParseError { remainder: "(get x)".as_bytes() }), parse("(get x)"));
    assert_eq!(Err(ParseError { remainder: "(get ;".as_bytes() }), parse("(let x 1);(get ;"));
    assert_eq!(Err(ParseError { remainder: "\n".as_bytes() }), parse("\n"));
    assert_eq!(Err(ParseError { remainder: ")\n".as_bytes() }), parse("5\n)\n"));
}

#[test]
fn expressions_stop_where_nothing_can_be_read() {
    let (rest, items) = expressions("(a);(b)".as_bytes()).unwrap();
    assert_eq!("(b)".as_bytes(), rest);
    assert_eq!(vec![ExpressionValue::Expression(call("a", vec![]))], items);
}

#[test]
fn identifier_shapes() {
    assert_eq!(("".as_bytes(), "x".to_owned()), identifier("x".as_bytes()).unwrap());
    assert_eq!(
        ("+1".as_bytes(), "_a-b_9".to_owned()),
        identifier("_a-b_9+1".as_bytes()).unwrap()
    );
    assert_eq!(Err(ParseError { remainder: "9a".as_bytes() }), identifier("9a".as_bytes()));
    assert_eq!(Err(ParseError { remainder: "-a".as_bytes() }), identifier("-a".as_bytes()));
    assert_eq!(Err(ParseError { remainder: "".as_bytes() }), identifier("".as_bytes()));
}

#[test]
fn operator_identifier_shapes() {
    assert_eq!(("x".as_bytes(), "->".to_owned()), operator_identifier("->x".as_bytes()).unwrap());
    assert_eq!(("".as_bytes(), "**".to_owned()), operator_identifier("**".as_bytes()).unwrap());
    assert_eq!(("a".as_bytes(), "/:*".to_owned()), operator_identifier("/:*a".as_bytes()).unwrap());
    assert_eq!(("".as_bytes(), "=:".to_owned()), operator_identifier("=:".as_bytes()).unwrap());
    assert!(operator_identifier(":=".as_bytes()).is_err());
    let long = "+".repeat(40);
    let (rest, name) = operator_identifier(long.as_bytes()).unwrap();
    assert_eq!(33, name.len());
    assert_eq!(7, rest.len());
}

#[test]
fn integer_limits() {
    assert_eq!(
        i64::MAX,
        integer_decimal("9223372036854775807 ".as_bytes()).unwrap().1
    );
    assert_eq!(
        i64::MIN,
        integer_decimal("-9223372036854775808 ".as_bytes()).unwrap().1
    );
    assert!(integer_decimal("9223372036854775808 ".as_bytes()).is_err());
    assert!(integer_decimal("-9223372036854775809 ".as_bytes()).is_err());
    assert!(integer_decimal("99999999999999999999999999999999999999999 ".as_bytes()).is_err());
    assert_eq!(7, integer_decimal("0000000000000000000000000000007".as_bytes()).unwrap().1);
    assert!(integer_decimal("+".as_bytes()).is_err());
    assert!(integer_decimal("x1".as_bytes()).is_err());
    assert_eq!(("x".as_bytes(), 12), integer_decimal("12x".as_bytes()).unwrap());
}

#[test]
fn boolean_shapes() {
    assert_eq!(("x".as_bytes(), true), boolean("truex".as_bytes()).unwrap());
    assert_eq!(("".as_bytes(), false), boolean("false".as_bytes()).unwrap());
    assert!(boolean("tru".as_bytes()).is_err());
    assert!(boolean("fals".as_bytes()).is_err());
}

#[test]
fn string_escapes() {
    assert_eq!(
        (" ".as_bytes(), "a\\b\"c\nd\re\tf".to_owned()),
        string("\"a\\\\b\\\"c\\nd\\re\\tf\" ".as_bytes()).unwrap()
    );
    assert_eq!(("".as_bytes(), "".to_owned()), string("\"\"".as_bytes()).unwrap());
    assert!(string("\"open".as_bytes()).is_err());
    assert!(string("\"bad \\x escape\"".as_bytes()).is_err());
    assert!(string("\"ends in \\".as_bytes()).is_err());
    assert!(string("plain".as_bytes()).is_err());
}

#[test]
fn string_text_is_decoded_as_utf8() {
    assert_eq!("h\u{e9}".to_owned(), string("\"h\u{e9}\"".as_bytes()).unwrap().1);
    let broken: [u8; 4] = [34, 97, 255, 34];
    assert_eq!("a\u{fffd}".to_owned(), string(&broken).unwrap().1);
}

#[test]
fn character_is_one_byte() {
    assert_eq!(("".as_bytes(), "'".to_owned()), character("'''".as_bytes()).unwrap());
    let latin: [u8; 3] = [39, 233, 39];
    assert_eq!("\u{e9}".to_owned(), character(&latin).unwrap().1);
    assert!(character("'ab'".as_bytes()).is_err());
    assert!(character("'a".as_bytes()).is_err());
}

#[test]
fn primitive_alternatives_in_order() {
    assert_eq!(PrimitiveData::Int(-5), primitive_value("-5".as_bytes()).unwrap().1);
    assert_eq!(PrimitiveData::Bool(true), primitive_value("true".as_bytes()).unwrap().1);
    assert_eq!(
        PrimitiveData::String("s".to_owned()),
        primitive_value("\"s\"".as_bytes()).unwrap().1
    );
    assert_eq!(PrimitiveData::Name("tru".to_owned()), primitive_value("tru".as_bytes()).unwrap().1);
    assert!(primitive_value("(".as_bytes()).is_err());
    assert!(primitive_value("99999999999999999999".as_bytes()).is_err());
}

#[test]
fn arguments_with_and_without_labels() {
    assert_eq!(
        vec![
            whole(1),
            ("-".to_owned(), ExpressionValue::Primitive(PrimitiveData::Int(2))),
            whole(-3),
            ("k".to_owned(), ExpressionValue::Primitive(PrimitiveData::Name("v".to_owned())))
        ],
        command_arguments("1 - 2 -3 k: v)".as_bytes()).unwrap().1
    );
    let (rest, items) = command_arguments("1 2  )".as_bytes()).unwrap();
    assert_eq!(vec![whole(1), whole(2)], items);
    assert_eq!("  )".as_bytes(), rest);
    assert_eq!(0, command_arguments(")".as_bytes()).unwrap().1.len());
}

#[test]
fn parameter_list_takes_arguments_without_labels() {
    assert_eq!(vec![bare("a"), bare("b")], argument_list("[a b]".as_bytes()).unwrap().1);
    assert_eq!(0, argument_list("[]".as_bytes()).unwrap().1.len());
    assert!(argument_list("[a b ]".as_bytes()).is_err());
    assert!(argument_list("[a".as_bytes()).is_err());
    assert!(argument_list("a]".as_bytes()).is_err());
}

#[test]
fn command_needs_a_terminator_and_leaves_it() {
    assert_eq!((")".as_bytes(), call("f", vec![whole(1)])), command(" f 1 )".as_bytes()).unwrap());
    assert_eq!(("}".as_bytes(), call("+", vec![whole(1)])), command("+1}".as_bytes()).unwrap());
    assert!(command("f 1".as_bytes()).is_err());
    assert!(command("f 1 ]".as_bytes()).is_err());
    assert!(command("1 f\n".as_bytes()).is_err());
}

#[test]
fn command_in_parentheses() {
    assert_eq!(
        (" ".as_bytes(), call("f", vec![])),
        command_expression("(f) ".as_bytes()).unwrap()
    );
    assert!(command_expression("(f".as_bytes()).is_err());
    assert!(command_expression("(f}".as_bytes()).is_err());
    assert!(command_expression(" (f)".as_bytes()).is_err());
}

#[test]
fn blocks() {
    assert_eq!(
        vec![call("let", vec![bare("x"), whole(1)]), call("get", vec![bare("x")])],
        block_expression("{ (let x 1) ; get x }".as_bytes()).unwrap().1
    );
    assert_eq!(
        vec![call("a", vec![]), call("b", vec![])],
        block_expression("{a\nb}".as_bytes()).unwrap().1
    );
    assert_eq!(0, block_expression("{ }".as_bytes()).unwrap().1.len());
    assert!(block_expression("{a;}".as_bytes()).is_err());
    assert!(block_expression("{(a) (b)}".as_bytes()).is_err());
    assert!(block_expression("{a".as_bytes()).is_err());
    let (rest, items) = block_commands("a;b;}".as_bytes()).unwrap();
    assert_eq!(2, items.len());
    assert_eq!(";}".as_bytes(), rest);
}

#[test]
fn procedure_literals() {
    assert_eq!(
        ExpressionValue::Procedure(vec![], vec![call("get", vec![bare("outer")])]),
        procedure_expression(" [] { (get outer) }".as_bytes()).unwrap().1
    );
    assert!(procedure_expression("[]".as_bytes()).is_err());
    assert!(procedure_expression("{}".as_bytes()).is_err());
}

#[test]
fn value_alternatives_in_order() {
    assert!(matches!(
        expression_value("[]{}".as_bytes()).unwrap().1,
        ExpressionValue::Procedure(_, _)
    ));
    assert!(matches!(expression_value("{}".as_bytes()).unwrap().1, ExpressionValue::Block(_)));
    assert!(matches!(
        expression_value("(f)".as_bytes()).unwrap().1,
        ExpressionValue::Expression(_)
    ));
    assert!(matches!(
        expression_value("f".as_bytes()).unwrap().1,
        ExpressionValue::Primitive(_)
    ));
    assert!(expression_value(")".as_bytes()).is_err());
}

#[test]
fn top_level_word_is_a_command() {
    assert_eq!(
        ExpressionValue::Expression(call("x", vec![])),
        expression("x\n".as_bytes()).unwrap().1
    );
    assert_eq!(
        ExpressionValue::Primitive(PrimitiveData::Name("x".to_owned())),
        expression("x".as_bytes()).unwrap().1
    );
}

#[test]
fn nested_values() {
    let parsed = parse("(let g {(let f []{ (get outer) })});").unwrap().1;
    assert_eq!(
        vec![ExpressionValue::Expression(call(
            "let",
            vec![
                bare("g"),
                (
                    "".to_owned(),
                    ExpressionValue::Block(vec![call(
                        "let",
                        vec![
                            bare("f"),
                            (
                                "".to_owned(),
                                ExpressionValue::Procedure(
                                    vec![],
                                    vec![call("get", vec![bare("outer")])]
                                )
                            )
                        ]
                    )])
                )
            ]
        ))],
        parsed
    );
}

#[test]
fn byte_classes() {
    for chr in 0..=255u8 {
        let letter = chr.is_ascii_alphabetic();
        assert_eq!(
            chr == b'-' || chr == b'_' || chr.is_ascii_alphanumeric(),
            is_identifier_char(chr)
        );
        assert_eq!(chr == b'_' || letter, is_identifier_initial(chr));
        assert_eq!(chr.is_ascii_lowercase(), is_lowercase_alpha(chr));
        assert_eq!(chr == b' ' || chr == b'\t', is_linespace(chr));
    }
}

#[test]
fn bytes_to_text() {
    assert_eq!("abc".to_owned(), vec_to_string("abc".as_bytes()));
    assert_eq!("h\u{e9}".to_owned(), vec_to_string("h\u{e9}".as_bytes()));
    assert_eq!("\u{fffd}".to_owned(), vec_to_string(&[128]));
    assert_eq!("abc".to_owned(), to_s(vec![97, 98, 99]));
    assert_eq!("".to_owned(), to_s(vec![]));
}
