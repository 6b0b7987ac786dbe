use shock::model::PrimitiveData;
use shock::parser::argument_list;
use shock::parser::boolean;
use shock::parser::character;
use shock::parser::command;
use shock::parser::command_argument_pair;
use shock::parser::command_arguments;
use shock::parser::expression;
use shock::parser::identifier;
use shock::parser::integer_decimal;
use shock::parser::Command;
use shock::parser::ExpressionValue;

fn name(text: &str) -> ExpressionValue {
    ExpressionValue::Primitive(PrimitiveData::Name(text.to_owned()))
}

fn number(value: i64) -> ExpressionValue {
    ExpressionValue::Primitive(PrimitiveData::Int(value))
}

#[test]
fn it_works() {
    assert_eq!("x".to_owned(), identifier("x ".as_bytes()).unwrap().1);
    assert_eq!("abas".to_owned(), identifier("abas ".as_bytes()).unwrap().1);
    assert_eq!("a".to_owned(), character("\'a\'bc ".as_bytes()).unwrap().1);
}

#[test]
fn test_primitive_parsing() {
    assert_eq!(true, boolean("true ".as_bytes()).unwrap().1);
    assert_eq!(false, boolean("false ".as_bytes()).unwrap().1);

    assert_eq!(1, integer_decimal("1 ".as_bytes()).unwrap().1);
    assert_eq!(101, integer_decimal("101 ".as_bytes()).unwrap().1);
    assert_eq!(101, integer_decimal("+101 ".as_bytes()).unwrap().1);
    assert_eq!(-101, integer_decimal("-101 ".as_bytes()).unwrap().1);
    assert_eq!(0, integer_decimal("-0 ".as_bytes()).unwrap().1);
}

#[test]
fn test_argument_list_parsing() {
    assert_eq!(
        ("x".to_owned(), name("Int")),
        command_argument_pair("x: Int ".as_bytes()).unwrap().1
    );
    assert_eq!(
        vec![("x".to_owned(), name("Int"))],
        command_arguments("x: Int ".as_bytes()).unwrap().1
    );
    assert_eq!(
        vec![("x".to_owned(), name("Int"))],
        argument_list("[x: Int] ".as_bytes()).unwrap().1
    );
    assert_eq!(
        vec![("x".to_owned(), name("Int")), ("y".to_owned(), name("String"))],
        argument_list("[x: Int y: String] ".as_bytes()).unwrap().1
    );
    assert_eq!(
        vec![
            ("x".to_owned(), name("Int")),
            ("y".to_owned(), name("String")),
            ("->".to_owned(), name("String"))
        ],
        argument_list("[x: Int y: String -> String] ".as_bytes()).unwrap().1
    );
}

#[test]
fn test_command() {
    assert_eq!(
        Command {
            name: "let".to_owned(),
            args: vec![
                ("".to_owned(), name("x")),
                (
                    "=".to_owned(),
                    ExpressionValue::Expression(Command {
                        name: "+".to_owned(),
                        args: vec![("".to_owned(), number(1)), ("".to_owned(), number(1))]
                    })
                )
            ]
        },
        command("let x = (+ 1 1) \n".as_bytes()).unwrap().1
    );

    assert_eq!(
        Command {
            name: "let".to_owned(),
            args: vec![
                ("".to_owned(), name("x")),
                (
                    "=".to_owned(),
                    ExpressionValue::Procedure(vec![("x".to_owned(), name("Int"))], vec![])
                )
            ]
        },
        command("let x = [x: Int]{} \n".as_bytes()).unwrap().1
    );
}

#[test]
fn test_expression_value() {
    assert_eq!(
        ExpressionValue::Procedure(vec![("x".to_owned(), name("Int"))], vec![]),
        expression("[x: Int]{} ".as_bytes()).unwrap().1
    );
    assert_eq!(
        ExpressionValue::Expression(Command {
            name: "let".to_owned(),
            args: vec![("".to_owned(), name("x")), ("=".to_owned(), number(1))]
        }),
        expression("(let x = 1) ".as_bytes()).unwrap().1
    );
}
