//! The syntax tree of the language, and the functions that read it from
//! bytes. What each of them reads is stated by the production of the same
//! name in `grammar`.

use vstd::prelude::*;
use vstd::slice::slice_subrange;
use vstd::string::StringSliceAdditionalSpecFns;
use vstd::utf8::decode_utf8;
use vstd::utf8::valid_utf8;
use crate::descent::argument_list_from;
use crate::descent::block_commands_from;
use crate::descent::block_expression_from;
use crate::descent::command_argument_pair_from;
use crate::descent::command_arguments_from;
use crate::descent::command_expression_from;
use crate::descent::command_from;
use crate::descent::expression_from;
use crate::descent::expression_value_from;
use crate::descent::expressions_from;
use crate::descent::procedure_expression_from;
use crate::grammar::argument_list_at;
use crate::grammar::argument_pair_at;
use crate::grammar::arguments_at;
use crate::grammar::block_at;
use crate::grammar::block_commands_at;
use crate::grammar::boolean_at;
use crate::grammar::character_at;
use crate::grammar::command_at;
use crate::grammar::command_expression_at;
use crate::grammar::DIGIT_NINE;
use crate::grammar::DIGIT_ZERO;
use crate::grammar::expression_at;
use crate::grammar::expression_value_at;
use crate::grammar::expressions_at;
use crate::grammar::identifier_at;
use crate::grammar::identifier_char;
use crate::grammar::identifier_initial;
use crate::grammar::integer_at;
use crate::grammar::is_ascii_lowercase;
use crate::grammar::linespace_char;
use crate::grammar::MINUS;
use crate::grammar::operator_identifier_at;
use crate::grammar::primitive_at;
use crate::grammar::procedure_at;
use crate::grammar::SPACE;
use crate::grammar::string_at;
use crate::grammar::TAB;
use crate::grammar::UNDERSCORE;
use crate::grammar::utf8_lossy;
use crate::model::PrimitiveData;
use crate::model::PrimitiveView;
use crate::scanner::boolean_from;
use crate::scanner::character_from;
use crate::scanner::identifier_from;
use crate::scanner::integer_decimal_from;
use crate::scanner::operator_identifier_from;
use crate::scanner::primitive_value_from;
use crate::scanner::string_from;

verus! {

/// What a command is, with text held as character sequences.
pub struct CommandView {
    pub name: Seq<char>,
    pub args: Seq<(Seq<char>, ExpressionView)>,
}

/// What an expression is, with text held as character sequences.
pub enum ExpressionView {
    Primitive(PrimitiveView),
    Expression(CommandView),
    Block(Seq<CommandView>),
    Procedure(Seq<(Seq<char>, ExpressionView)>, Seq<CommandView>),
    Path(Seq<Seq<char>>),
    Unit,
}

/// A name and the arguments that it is applied to, each a label and an
/// expression. The label is empty where the argument was given by position.
#[derive(Debug, PartialEq)]
pub struct Command {
    pub name: String,
    pub args: Vec<(String, ExpressionValue)>,
}

/// A node of the syntax tree.
#[derive(Debug, PartialEq)]
pub enum ExpressionValue {
    Primitive(PrimitiveData),
    Expression(Command),
    Block(Vec<Command>),
    Procedure(Vec<(String, ExpressionValue)>, Vec<Command>),
    Path(Vec<String>),
    Unit,
}

/// What arguments are.
pub open spec fn arguments_view(args: Seq<(String, ExpressionValue)>) -> Seq<
    (Seq<char>, ExpressionView),
>
    decreases args,
{
    Seq::new(
        args.len(),
        |i: int|
            if 0 <= i < args.len() {
                (args[i].0@, args[i].1.view())
            } else {
                arbitrary()
            },
    )
}

/// What commands are.
pub open spec fn commands_view(commands: Seq<Command>) -> Seq<CommandView>
    decreases commands,
{
    Seq::new(
        commands.len(),
        |i: int|
            if 0 <= i < commands.len() {
                commands[i].view()
            } else {
                arbitrary()
            },
    )
}

/// What expressions are.
pub open spec fn expressions_view(expressions: Seq<ExpressionValue>) -> Seq<ExpressionView> {
    Seq::new(expressions.len(), |i: int| expressions[i]@)
}

/// What names are.
pub open spec fn names_view(names: Seq<String>) -> Seq<Seq<char>> {
    Seq::new(names.len(), |i: int| names[i]@)
}

impl View for Command {
    type V = CommandView;

    open spec fn view(&self) -> CommandView
        decreases self,
    {
        CommandView { name: self.name@, args: arguments_view(self.args@) }
    }
}

impl View for ExpressionValue {
    type V = ExpressionView;

    open spec fn view(&self) -> ExpressionView
        decreases self,
    {
        match self {
            ExpressionValue::Primitive(p) => ExpressionView::Primitive(p@),
            ExpressionValue::Expression(c) => ExpressionView::Expression(c.view()),
            ExpressionValue::Block(cs) => ExpressionView::Block(commands_view(cs@)),
            ExpressionValue::Procedure(args, cs) => ExpressionView::Procedure(
                arguments_view(args@),
                commands_view(cs@),
            ),
            ExpressionValue::Path(p) => ExpressionView::Path(names_view(p@)),
            ExpressionValue::Unit => ExpressionView::Unit,
        }
    }
}

/// A copy of names.
pub fn clone_names(names: &Vec<String>) -> (r: Vec<String>)
    ensures
        names_view(r@) == names_view(names@),
{
    let mut out: Vec<String> = Vec::new();
    let mut i: usize = 0;
    while i < names.len()
        invariant
            i <= names.len(),
            out.len() == i,
            forall|j: int| 0 <= j < i ==> out@[j]@ == names@[j]@,
        decreases names.len() - i,
    {
        out.push(names[i].clone());
        i += 1;
    }
    assert(names_view(out@) =~= names_view(names@));
    out
}

/// A copy of arguments.
pub fn clone_arguments(args: &Vec<(String, ExpressionValue)>) -> (r: Vec<
    (String, ExpressionValue),
>)
    ensures
        arguments_view(r@) == arguments_view(args@),
    decreases args,
{
    let mut out: Vec<(String, ExpressionValue)> = Vec::new();
    let mut i: usize = 0;
    while i < args.len()
        invariant
            i <= args.len(),
            out.len() == i,
            forall|j: int|
                0 <= j < i ==> out@[j].0@ == args@[j].0@ && out@[j].1@ == args@[j].1@,
        decreases args.len() - i,
    {
        let value = args[i].1.clone();
        out.push((args[i].0.clone(), value));
        i += 1;
    }
    assert(arguments_view(out@) =~= arguments_view(args@));
    out
}

/// A copy of commands.
pub fn clone_commands(commands: &Vec<Command>) -> (r: Vec<Command>)
    ensures
        commands_view(r@) == commands_view(commands@),
    decreases commands,
{
    let mut out: Vec<Command> = Vec::new();
    let mut i: usize = 0;
    while i < commands.len()
        invariant
            i <= commands.len(),
            out.len() == i,
            forall|j: int| 0 <= j < i ==> out@[j]@ == commands@[j]@,
        decreases commands.len() - i,
    {
        out.push(commands[i].clone());
        i += 1;
    }
    assert(commands_view(out@) =~= commands_view(commands@));
    out
}

impl Clone for Command {
    fn clone(&self) -> (r: Self)
        ensures
            r@ == self@,
        decreases self,
    {
        Command { name: self.name.clone(), args: clone_arguments(&self.args) }
    }
}

impl Clone for ExpressionValue {
    fn clone(&self) -> (r: Self)
        ensures
            r@ == self@,
        decreases self,
    {
        match self {
            ExpressionValue::Primitive(p) => ExpressionValue::Primitive(p.clone()),
            ExpressionValue::Expression(c) => ExpressionValue::Expression(c.clone()),
            ExpressionValue::Block(cs) => ExpressionValue::Block(clone_commands(cs)),
            ExpressionValue::Procedure(args, cs) => ExpressionValue::Procedure(
                clone_arguments(args),
                clone_commands(cs),
            ),
            ExpressionValue::Path(p) => ExpressionValue::Path(clone_names(p)),
            ExpressionValue::Unit => ExpressionValue::Unit,
        }
    }
}

/// Why reading failed: the bytes that were not read.
#[derive(Debug, PartialEq)]
pub struct ParseError<'a> {
    pub remainder: &'a [u8],
}

/// Whether `rest` is an end of `input`.
pub open spec fn is_rest(input: Seq<u8>, rest: Seq<u8>) -> bool {
    rest.len() <= input.len() && rest == input.skip(input.len() - rest.len())
}

/// How many bytes of `input` stand before `rest`.
pub open spec fn consumed(input: Seq<u8>, rest: Seq<u8>) -> int {
    input.len() - rest.len()
}

fn remainder<'a>(input: &'a [u8], end: usize) -> (rest: &'a [u8])
    requires
        end <= input@.len(),
    ensures
        is_rest(input@, rest@),
        consumed(input@, rest@) == end,
{
    slice_subrange(input, end, input.len())
}

/// Whether `chr` may continue an identifier.
pub fn is_identifier_char(chr: u8) -> (r: bool)
    ensures
        r == identifier_char(chr),
{
    chr == MINUS || chr == UNDERSCORE || (97 <= chr && chr <= 122) || (65 <= chr && chr <= 90) || (
    DIGIT_ZERO <= chr && chr <= DIGIT_NINE)
}

/// Whether `chr` is an ASCII lowercase letter.
pub fn is_lowercase_alpha(chr: u8) -> (r: bool)
    ensures
        r == is_ascii_lowercase(chr),
{
    97 <= chr && chr <= 122
}

/// Whether `chr` may start an identifier.
pub fn is_identifier_initial(chr: u8) -> (r: bool)
    ensures
        r == identifier_initial(chr),
{
    chr == UNDERSCORE || (97 <= chr && chr <= 122) || (65 <= chr && chr <= 90)
}

/// Whether `chr` is a space or a tab.
pub fn is_linespace(chr: u8) -> (r: bool)
    ensures
        r == linespace_char(chr),
{
    chr == SPACE || chr == TAB
}

/// Calls `String::from_utf8_lossy` and takes the text out of what it returns.
/// The contract names the text after the bytes, and claims one thing more of
/// it: where the bytes are valid UTF-8, the text is the one that they encode.
#[verifier::external_body]
fn decode_lossy(input: &[u8]) -> (r: String)
    ensures
        r@ == utf8_lossy(input@),
        valid_utf8(input@) ==> r@ == decode_utf8(input@),
{
    String::from_utf8_lossy(input).into_owned()
}

/// Transforms bytes into text; a sequence that is no valid UTF-8 is replaced
/// as `String::from_utf8_lossy` does it.
pub fn vec_to_string(input: &[u8]) -> (r: String)
    ensures
        r@ == utf8_lossy(input@),
        valid_utf8(input@) ==> r@ == decode_utf8(input@),
{
    decode_lossy(input)
}

/// Transforms a vector of bytes into text, as `vec_to_string` does.
pub fn to_s(i: Vec<u8>) -> (r: String)
    ensures
        r@ == utf8_lossy(i@),
        valid_utf8(i@) ==> r@ == decode_utf8(i@),
{
    decode_lossy(i.as_slice())
}

/// Reads an identifier at the start of `input`.
pub fn identifier<'a>(input: &'a [u8]) -> (r: Result<(&'a [u8], String), ParseError<'a>>)
    ensures
        match r {
            Ok((rest, name)) => is_rest(input@, rest@) && identifier_at(input@, 0) == Some(
                (name@, consumed(input@, rest@)),
            ),
            Err(e) => identifier_at(input@, 0) is None && e.remainder@ == input@,
        },
{
    match identifier_from(input, 0) {
        Some((name, end)) => Ok((remainder(input, end), name)),
        None => Err(ParseError { remainder: input }),
    }
}

/// Reads an operator identifier at the start of `input`.
pub fn operator_identifier<'a>(input: &'a [u8]) -> (r: Result<(&'a [u8], String), ParseError<'a>>)
    ensures
        match r {
            Ok((rest, name)) => is_rest(input@, rest@) && operator_identifier_at(input@, 0) == Some(
                (name@, consumed(input@, rest@)),
            ),
            Err(e) => operator_identifier_at(input@, 0) is None && e.remainder@ == input@,
        },
{
    match operator_identifier_from(input, 0) {
        Some((name, end)) => Ok((remainder(input, end), name)),
        None => Err(ParseError { remainder: input }),
    }
}

/// Reads a string literal at the start of `input`.
pub fn string<'a>(input: &'a [u8]) -> (r: Result<(&'a [u8], String), ParseError<'a>>)
    ensures
        match r {
            Ok((rest, text)) => is_rest(input@, rest@) && string_at(input@, 0) == Some(
                (text@, consumed(input@, rest@)),
            ),
            Err(e) => string_at(input@, 0) is None && e.remainder@ == input@,
        },
{
    match string_from(input, 0) {
        Some((text, end)) => Ok((remainder(input, end), text)),
        None => Err(ParseError { remainder: input }),
    }
}

/// Reads a character literal at the start of `input`.
pub fn character<'a>(input: &'a [u8]) -> (r: Result<(&'a [u8], String), ParseError<'a>>)
    ensures
        match r {
            Ok((rest, text)) => is_rest(input@, rest@) && character_at(input@, 0) == Some(
                (text@, consumed(input@, rest@)),
            ),
            Err(e) => character_at(input@, 0) is None && e.remainder@ == input@,
        },
{
    match character_from(input, 0) {
        Some((text, end)) => Ok((remainder(input, end), text)),
        None => Err(ParseError { remainder: input }),
    }
}

/// Reads a decimal integer at the start of `input`.
pub fn integer_decimal<'a>(input: &'a [u8]) -> (r: Result<(&'a [u8], i64), ParseError<'a>>)
    ensures
        match r {
            Ok((rest, value)) => is_rest(input@, rest@) && integer_at(input@, 0) == Some(
                (value, consumed(input@, rest@)),
            ),
            Err(e) => integer_at(input@, 0) is None && e.remainder@ == input@,
        },
{
    match integer_decimal_from(input, 0) {
        Some((value, end)) => Ok((remainder(input, end), value)),
        None => Err(ParseError { remainder: input }),
    }
}

/// Reads `true` or `false` at the start of `input`.
pub fn boolean<'a>(input: &'a [u8]) -> (r: Result<(&'a [u8], bool), ParseError<'a>>)
    ensures
        match r {
            Ok((rest, value)) => is_rest(input@, rest@) && boolean_at(input@, 0) == Some(
                (value, consumed(input@, rest@)),
            ),
            Err(e) => boolean_at(input@, 0) is None && e.remainder@ == input@,
        },
{
    match boolean_from(input, 0) {
        Some((value, end)) => Ok((remainder(input, end), value)),
        None => Err(ParseError { remainder: input }),
    }
}

/// Reads a primitive literal at the start of `input`.
pub fn primitive_value<'a>(input: &'a [u8]) -> (r: Result<
    (&'a [u8], PrimitiveData),
    ParseError<'a>,
>)
    ensures
        match r {
            Ok((rest, value)) => is_rest(input@, rest@) && primitive_at(input@, 0) == Some(
                (value@, consumed(input@, rest@)),
            ),
            Err(e) => primitive_at(input@, 0) is None && e.remainder@ == input@,
        },
{
    match primitive_value_from(input, 0) {
        Some((value, end)) => Ok((remainder(input, end), value)),
        None => Err(ParseError { remainder: input }),
    }
}

/// Reads a value at the start of `input`.
pub fn expression_value<'a>(input: &'a [u8]) -> (r: Result<
    (&'a [u8], ExpressionValue),
    ParseError<'a>,
>)
    ensures
        match r {
            Ok((rest, value)) => is_rest(input@, rest@) && expression_value_at(input@, 0) == Some(
                (value@, consumed(input@, rest@)),
            ),
            Err(e) => expression_value_at(input@, 0) is None && e.remainder@ == input@,
        },
{
    match expression_value_from(input, 0) {
        Some((value, end)) => Ok((remainder(input, end), value)),
        None => Err(ParseError { remainder: input }),
    }
}

/// Reads an argument with a label at the start of `input`.
pub fn command_argument_pair<'a>(input: &'a [u8]) -> (r: Result<
    (&'a [u8], (String, ExpressionValue)),
    ParseError<'a>,
>)
    ensures
        match r {
            Ok((rest, argument)) => is_rest(input@, rest@) && argument_pair_at(input@, 0) == Some(
                ((argument.0@, argument.1@), consumed(input@, rest@)),
            ),
            Err(e) => argument_pair_at(input@, 0) is None && e.remainder@ == input@,
        },
{
    match command_argument_pair_from(input, 0) {
        Some((argument, end)) => Ok((remainder(input, end), argument)),
        None => Err(ParseError { remainder: input }),
    }
}

/// Reads the arguments of a command at the start of `input`, as many as there
/// are. This does not fail.
pub fn command_arguments<'a>(input: &'a [u8]) -> (r: Result<
    (&'a [u8], Vec<(String, ExpressionValue)>),
    ParseError<'a>,
>)
    ensures
        r matches Ok((rest, items)) && is_rest(input@, rest@) && arguments_at(input@, 0) == (
            arguments_view(items@),
            consumed(input@, rest@),
        ),
{
    let (items, end) = command_arguments_from(input, 0);
    Ok((remainder(input, end), items))
}

/// Reads a parameter list at the start of `input`.
pub fn argument_list<'a>(input: &'a [u8]) -> (r: Result<
    (&'a [u8], Vec<(String, ExpressionValue)>),
    ParseError<'a>,
>)
    ensures
        match r {
            Ok((rest, parameters)) => is_rest(input@, rest@) && argument_list_at(input@, 0) == Some(
                (arguments_view(parameters@), consumed(input@, rest@)),
            ),
            Err(e) => argument_list_at(input@, 0) is None && e.remainder@ == input@,
        },
{
    match argument_list_from(input, 0) {
        Some((parameters, end)) => Ok((remainder(input, end), parameters)),
        None => Err(ParseError { remainder: input }),
    }
}

/// Reads a command at the start of `input`. The terminator behind it is left
/// in the rest.
pub fn command<'a>(input: &'a [u8]) -> (r: Result<(&'a [u8], Command), ParseError<'a>>)
    ensures
        match r {
            Ok((rest, command)) => is_rest(input@, rest@) && command_at(input@, 0) == Some(
                (command@, consumed(input@, rest@)),
            ),
            Err(e) => command_at(input@, 0) is None && e.remainder@ == input@,
        },
{
    match command_from(input, 0) {
        Some((command, end)) => Ok((remainder(input, end), command)),
        None => Err(ParseError { remainder: input }),
    }
}

/// Reads a command in parentheses at the start of `input`.
pub fn command_expression<'a>(input: &'a [u8]) -> (r: Result<(&'a [u8], Command), ParseError<'a>>)
    ensures
        match r {
            Ok((rest, command)) => is_rest(input@, rest@) && command_expression_at(input@, 0)
                == Some((command@, consumed(input@, rest@))),
            Err(e) => command_expression_at(input@, 0) is None && e.remainder@ == input@,
        },
{
    match command_expression_from(input, 0) {
        Some((command, end)) => Ok((remainder(input, end), command)),
        None => Err(ParseError { remainder: input }),
    }
}

/// Reads an expression of the top level at the start of `input`.
pub fn expression<'a>(input: &'a [u8]) -> (r: Result<(&'a [u8], ExpressionValue), ParseError<'a>>)
    ensures
        match r {
            Ok((rest, value)) => is_rest(input@, rest@) && expression_at(input@, 0) == Some(
                (value@, consumed(input@, rest@)),
            ),
            Err(e) => expression_at(input@, 0) is None && e.remainder@ == input@,
        },
{
    match expression_from(input, 0) {
        Some((value, end)) => Ok((remainder(input, end), value)),
        None => Err(ParseError { remainder: input }),
    }
}

/// Reads the expressions of the top level at the start of `input`, as many as
/// there are. This does not fail.
pub fn expressions<'a>(input: &'a [u8]) -> (r: Result<
    (&'a [u8], Vec<ExpressionValue>),
    ParseError<'a>,
>)
    ensures
        r matches Ok((rest, items)) && is_rest(input@, rest@) && expressions_at(input@, 0) == (
            expressions_view(items@),
            consumed(input@, rest@),
        ),
{
    let (items, end) = expressions_from(input, 0);
    Ok((remainder(input, end), items))
}

/// Reads the commands of a block at the start of `input`, as many as there
/// are. This does not fail.
pub fn block_commands<'a>(input: &'a [u8]) -> (r: Result<(&'a [u8], Vec<Command>), ParseError<'a>>)
    ensures
        r matches Ok((rest, items)) && is_rest(input@, rest@) && block_commands_at(input@, 0) == (
            commands_view(items@),
            consumed(input@, rest@),
        ),
{
    let (items, end) = block_commands_from(input, 0);
    Ok((remainder(input, end), items))
}

/// Reads a block at the start of `input`.
pub fn block_expression<'a>(input: &'a [u8]) -> (r: Result<
    (&'a [u8], Vec<Command>),
    ParseError<'a>,
>)
    ensures
        match r {
            Ok((rest, commands)) => is_rest(input@, rest@) && block_at(input@, 0) == Some(
                (commands_view(commands@), consumed(input@, rest@)),
            ),
            Err(e) => block_at(input@, 0) is None && e.remainder@ == input@,
        },
{
    match block_expression_from(input, 0) {
        Some((commands, end)) => Ok((remainder(input, end), commands)),
        None => Err(ParseError { remainder: input }),
    }
}

/// Reads a procedure literal at the start of `input`.
pub fn procedure_expression<'a>(input: &'a [u8]) -> (r: Result<
    (&'a [u8], ExpressionValue),
    ParseError<'a>,
>)
    ensures
        match r {
            Ok((rest, value)) => is_rest(input@, rest@) && procedure_at(input@, 0) == Some(
                (value@, consumed(input@, rest@)),
            ),
            Err(e) => procedure_at(input@, 0) is None && e.remainder@ == input@,
        },
{
    match procedure_expression_from(input, 0) {
        Some((value, end)) => Ok((remainder(input, end), value)),
        None => Err(ParseError { remainder: input }),
    }
}

/// Reads a text as expressions of the top level. It succeeds where they
/// reach to the end of the text; else the error holds what stands behind the
/// last one that could be read.
pub fn parse<'a>(line: &'a str) -> (r: Result<(&'a [u8], Vec<ExpressionValue>), ParseError<'a>>)
    ensures
        match r {
            Ok((rest, items)) => rest@.len() == 0 && expressions_at(line.spec_bytes(), 0) == (
                expressions_view(items@),
                line.spec_bytes().len() as int,
            ),
            Err(e) => e.remainder@.len() > 0 && is_rest(line.spec_bytes(), e.remainder@)
                && expressions_at(line.spec_bytes(), 0).1 == consumed(
                line.spec_bytes(),
                e.remainder@,
            ),
        },
{
    let input = line.as_bytes();
    let (items, end) = expressions_from(input, 0);
    if end == input.len() {
        Ok((remainder(input, end), items))
    } else {
        Err(ParseError { remainder: remainder(input, end) })
    }
}

} // verus!
