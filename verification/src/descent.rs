//! The sentences of the language, read from a byte slice at a position by
//! recursive descent.

use vstd::prelude::*;
use crate::grammar::argument_at;
use crate::grammar::argument_list_at;
use crate::grammar::argument_pair_at;
use crate::grammar::arguments_at;
use crate::grammar::arguments_tail_at;
use crate::grammar::block_at;
use crate::grammar::block_commands_at;
use crate::grammar::block_item_at;
use crate::grammar::block_tail_at;
use crate::grammar::CLOSE_BRACE;
use crate::grammar::CLOSE_BRACKET;
use crate::grammar::CLOSE_PAREN;
use crate::grammar::COLON;
use crate::grammar::command_at;
use crate::grammar::command_expression_at;
use crate::grammar::command_name_at;
use crate::grammar::expression_at;
use crate::grammar::expression_value_at;
use crate::grammar::expressions_at;
use crate::grammar::label_at;
use crate::grammar::OPEN_BRACE;
use crate::grammar::OPEN_BRACKET;
use crate::grammar::OPEN_PAREN;
use crate::grammar::parameters_at;
use crate::grammar::procedure_at;
use crate::parser::arguments_view;
use crate::parser::Command;
use crate::parser::commands_view;
use crate::parser::expressions_view;
use crate::parser::ExpressionValue;
use crate::scanner::identifier_from;
use crate::scanner::is_line_end;
use crate::scanner::is_terminator;
use crate::scanner::operator_identifier_from;
use crate::scanner::primitive_value_from;
use crate::scanner::skip_linespace;

verus! {

/// Reads the name of a command at `pos`.
fn command_name_from(input: &[u8], pos: usize) -> (r: Option<(String, usize)>)
    requires
        pos <= input@.len(),
    ensures
        match r {
            Some((name, end)) => command_name_at(input@, pos as int) == Some((name@, end as int))
                && pos < end <= input@.len(),
            None => command_name_at(input@, pos as int) is None,
        },
{
    match identifier_from(input, pos) {
        Some(found) => Some(found),
        None => operator_identifier_from(input, pos),
    }
}

/// Reads the label of an argument at `pos`.
fn label_from(input: &[u8], pos: usize) -> (r: Option<(String, usize)>)
    requires
        pos <= input@.len(),
    ensures
        match r {
            Some((name, end)) => label_at(input@, pos as int) == Some((name@, end as int)) && pos
                < end <= input@.len(),
            None => label_at(input@, pos as int) is None,
        },
{
    if let Some((name, end)) = identifier_from(input, pos) {
        if end < input.len() && input[end] == COLON {
            return Some((name, end + 1));
        }
    }
    operator_identifier_from(input, pos)
}

/// Reads a value at `pos`.
pub(crate) fn expression_value_from(input: &[u8], pos: usize) -> (r: Option<
    (ExpressionValue, usize),
>)
    requires
        pos <= input@.len(),
    ensures
        match r {
            Some((value, end)) => expression_value_at(input@, pos as int) == Some(
                (value@, end as int),
            ) && pos < end <= input@.len(),
            None => expression_value_at(input@, pos as int) is None,
        },
    decreases input@.len() - pos, 2nat,
{
    if let Some(found) = procedure_expression_from(input, pos) {
        return Some(found);
    }
    if let Some((commands, end)) = block_expression_from(input, pos) {
        return Some((ExpressionValue::Block(commands), end));
    }
    if let Some((command, end)) = command_expression_from(input, pos) {
        return Some((ExpressionValue::Expression(command), end));
    }
    if let Some((value, end)) = primitive_value_from(input, pos) {
        return Some((ExpressionValue::Primitive(value), end));
    }
    None
}

/// Reads a procedure literal at `pos`.
pub(crate) fn procedure_expression_from(input: &[u8], pos: usize) -> (r: Option<
    (ExpressionValue, usize),
>)
    requires
        pos <= input@.len(),
    ensures
        match r {
            Some((value, end)) => procedure_at(input@, pos as int) == Some((value@, end as int))
                && pos < end <= input@.len(),
            None => procedure_at(input@, pos as int) is None,
        },
    decreases input@.len() - pos, 1nat,
{
    let open = skip_linespace(input, pos);
    match argument_list_from(input, open) {
        Some((parameters, after)) => {
            let start = skip_linespace(input, after);
            match block_expression_from(input, start) {
                Some((body, end)) => Some((ExpressionValue::Procedure(parameters, body), end)),
                None => None,
            }
        },
        None => None,
    }
}

/// Reads a parameter list at `pos`.
pub(crate) fn argument_list_from(input: &[u8], pos: usize) -> (r: Option<
    (Vec<(String, ExpressionValue)>, usize),
>)
    requires
        pos <= input@.len(),
    ensures
        match r {
            Some((parameters, end)) => argument_list_at(input@, pos as int) == Some(
                (arguments_view(parameters@), end as int),
            ) && pos < end <= input@.len(),
            None => argument_list_at(input@, pos as int) is None,
        },
    decreases input@.len() - pos, 0nat,
{
    if !(pos < input.len() && input[pos] == OPEN_BRACKET) {
        return None;
    }
    let (parameters, close) = parameters_from(input, pos + 1);
    if close < input.len() && input[close] == CLOSE_BRACKET {
        Some((parameters, close + 1))
    } else {
        None
    }
}

/// Reads the parameters of a procedure literal, which start at `pos`.
fn parameters_from(input: &[u8], pos: usize) -> (r: (Vec<(String, ExpressionValue)>, usize))
    requires
        pos <= input@.len(),
    ensures
        parameters_at(input@, pos as int) == (arguments_view(r.0@), r.1 as int),
        pos <= r.1 <= input@.len(),
    decreases input@.len() - pos, 4nat,
{
    let mut items: Vec<(String, ExpressionValue)> = Vec::new();
    let mut at: usize = pos;
    assert(arguments_view(items@) + parameters_at(input@, at as int).0 =~= parameters_at(
        input@,
        at as int,
    ).0);
    loop
        invariant
            pos <= at <= input@.len(),
            parameters_at(input@, pos as int) == (
                arguments_view(items@) + parameters_at(input@, at as int).0,
                parameters_at(input@, at as int).1,
            ),
        decreases input@.len() - at,
    {
        let start = skip_linespace(input, at);
        match argument_from(input, start) {
            Some((argument, end)) => {
                proof {
                    let rest = parameters_at(input@, end as int).0;
                    let one = seq![(argument.0@, argument.1@)];
                    assert(arguments_view(items@.push(argument)) =~= arguments_view(items@) + one);
                    assert(arguments_view(items@) + (one + rest) =~= (arguments_view(items@) + one)
                        + rest);
                }
                items.push(argument);
                at = end;
            },
            None => {
                assert(arguments_view(items@) + Seq::empty() =~= arguments_view(items@));
                return (items, at);
            },
        }
    }
}

/// Reads an argument at `pos`.
pub(crate) fn argument_from(input: &[u8], pos: usize) -> (r: Option<
    ((String, ExpressionValue), usize),
>)
    requires
        pos <= input@.len(),
    ensures
        match r {
            Some((argument, end)) => argument_at(input@, pos as int) == Some(
                ((argument.0@, argument.1@), end as int),
            ) && pos < end <= input@.len(),
            None => argument_at(input@, pos as int) is None,
        },
    decreases input@.len() - pos, 3nat,
{
    if let Some(found) = command_argument_pair_from(input, pos) {
        return Some(found);
    }
    if let Some((value, end)) = expression_value_from(input, pos) {
        return Some(((String::new(), value), end));
    }
    None
}

/// Reads an argument with a label at `pos`.
pub(crate) fn command_argument_pair_from(input: &[u8], pos: usize) -> (r: Option<
    ((String, ExpressionValue), usize),
>)
    requires
        pos <= input@.len(),
    ensures
        match r {
            Some((argument, end)) => argument_pair_at(input@, pos as int) == Some(
                ((argument.0@, argument.1@), end as int),
            ) && pos < end <= input@.len(),
            None => argument_pair_at(input@, pos as int) is None,
        },
    decreases input@.len() - pos, 0nat,
{
    match label_from(input, pos) {
        Some((label, after)) => {
            let start = skip_linespace(input, after);
            if start == after {
                return None;
            }
            match expression_value_from(input, start) {
                Some((value, end)) => Some(((label, value), end)),
                None => None,
            }
        },
        None => None,
    }
}

/// Reads the arguments of a command, which start at `pos`.
pub(crate) fn command_arguments_from(input: &[u8], pos: usize) -> (r: (
    Vec<(String, ExpressionValue)>,
    usize,
))
    requires
        pos <= input@.len(),
    ensures
        arguments_at(input@, pos as int) == (arguments_view(r.0@), r.1 as int),
        pos <= r.1 <= input@.len(),
    decreases input@.len() - pos, 4nat,
{
    let mut items: Vec<(String, ExpressionValue)> = Vec::new();
    let mut at: usize = pos;
    let first = skip_linespace(input, pos);
    match argument_from(input, first) {
        Some((argument, end)) => {
            proof {
                let rest = arguments_tail_at(input@, end as int).0;
                let one = seq![(argument.0@, argument.1@)];
                assert(arguments_view(items@.push(argument)) =~= one);
            }
            items.push(argument);
            at = end;
        },
        None => {
            assert(arguments_view(items@) =~= Seq::empty());
            return (items, pos);
        },
    }
    assert(arguments_view(items@) + arguments_tail_at(input@, at as int).0 =~= arguments_at(
        input@,
        pos as int,
    ).0);
    loop
        invariant
            pos < at <= input@.len(),
            arguments_at(input@, pos as int) == (
                arguments_view(items@) + arguments_tail_at(input@, at as int).0,
                arguments_tail_at(input@, at as int).1,
            ),
        decreases input@.len() - at,
    {
        let start = skip_linespace(input, at);
        if start == at {
            assert(arguments_view(items@) + Seq::empty() =~= arguments_view(items@));
            return (items, at);
        }
        match argument_from(input, start) {
            Some((argument, end)) => {
                proof {
                    let rest = arguments_tail_at(input@, end as int).0;
                    let one = seq![(argument.0@, argument.1@)];
                    assert(arguments_view(items@.push(argument)) =~= arguments_view(items@) + one);
                    assert(arguments_view(items@) + (one + rest) =~= (arguments_view(items@) + one)
                        + rest);
                }
                items.push(argument);
                at = end;
            },
            None => {
                assert(arguments_view(items@) + Seq::empty() =~= arguments_view(items@));
                return (items, at);
            },
        }
    }
}

/// Reads a command at `pos`.
pub(crate) fn command_from(input: &[u8], pos: usize) -> (r: Option<(Command, usize)>)
    requires
        pos <= input@.len(),
    ensures
        match r {
            Some((command, end)) => command_at(input@, pos as int) == Some((command@, end as int))
                && pos < end <= input@.len(),
            None => command_at(input@, pos as int) is None,
        },
    decreases input@.len() - pos, 0nat,
{
    let start = skip_linespace(input, pos);
    match command_name_from(input, start) {
        Some((name, after)) => {
            let first = skip_linespace(input, after);
            let (args, stop) = command_arguments_from(input, first);
            let end = skip_linespace(input, stop);
            if end < input.len() && is_terminator(input[end]) {
                Some((Command { name, args }, end))
            } else {
                None
            }
        },
        None => None,
    }
}

/// Reads a command in parentheses at `pos`.
pub(crate) fn command_expression_from(input: &[u8], pos: usize) -> (r: Option<(Command, usize)>)
    requires
        pos <= input@.len(),
    ensures
        match r {
            Some((command, end)) => command_expression_at(input@, pos as int) == Some(
                (command@, end as int),
            ) && pos < end <= input@.len(),
            None => command_expression_at(input@, pos as int) is None,
        },
    decreases input@.len() - pos, 0nat,
{
    if !(pos < input.len() && input[pos] == OPEN_PAREN) {
        return None;
    }
    match command_from(input, pos + 1) {
        Some((command, end)) => {
            if end < input.len() && input[end] == CLOSE_PAREN {
                Some((command, end + 1))
            } else {
                None
            }
        },
        None => None,
    }
}

/// Reads a block at `pos`.
pub(crate) fn block_expression_from(input: &[u8], pos: usize) -> (r: Option<(Vec<Command>, usize)>)
    requires
        pos <= input@.len(),
    ensures
        match r {
            Some((commands, end)) => block_at(input@, pos as int) == Some(
                (commands_view(commands@), end as int),
            ) && pos < end <= input@.len(),
            None => block_at(input@, pos as int) is None,
        },
    decreases input@.len() - pos, 0nat,
{
    if !(pos < input.len() && input[pos] == OPEN_BRACE) {
        return None;
    }
    let (commands, stop) = block_commands_from(input, pos + 1);
    let close = skip_linespace(input, stop);
    if close < input.len() && input[close] == CLOSE_BRACE {
        Some((commands, close + 1))
    } else {
        None
    }
}

/// Reads a command of a block at `pos`.
pub(crate) fn block_item_from(input: &[u8], pos: usize) -> (r: Option<(Command, usize)>)
    requires
        pos <= input@.len(),
    ensures
        match r {
            Some((command, end)) => block_item_at(input@, pos as int) == Some(
                (command@, end as int),
            ) && pos < end <= input@.len(),
            None => block_item_at(input@, pos as int) is None,
        },
    decreases input@.len() - pos, 1nat,
{
    if let Some(found) = command_from(input, pos) {
        return Some(found);
    }
    let start = skip_linespace(input, pos);
    command_expression_from(input, start)
}

/// Reads the commands of a block, which start at `pos`.
pub(crate) fn block_commands_from(input: &[u8], pos: usize) -> (r: (Vec<Command>, usize))
    requires
        pos <= input@.len(),
    ensures
        block_commands_at(input@, pos as int) == (commands_view(r.0@), r.1 as int),
        pos <= r.1 <= input@.len(),
    decreases input@.len() - pos, 2nat,
{
    let mut items: Vec<Command> = Vec::new();
    let mut at: usize = pos;
    match block_item_from(input, pos) {
        Some((command, end)) => {
            proof {
                assert(commands_view(items@.push(command)) =~= seq![command@]);
            }
            items.push(command);
            at = end;
        },
        None => {
            assert(commands_view(items@) =~= Seq::empty());
            return (items, pos);
        },
    }
    assert(commands_view(items@) + block_tail_at(input@, at as int).0 =~= block_commands_at(
        input@,
        pos as int,
    ).0);
    loop
        invariant
            pos < at <= input@.len(),
            block_commands_at(input@, pos as int) == (
                commands_view(items@) + block_tail_at(input@, at as int).0,
                block_tail_at(input@, at as int).1,
            ),
        decreases input@.len() - at,
    {
        let separator = skip_linespace(input, at);
        if !(separator < input.len() && is_line_end(input[separator])) {
            assert(commands_view(items@) + Seq::empty() =~= commands_view(items@));
            return (items, at);
        }
        let start = skip_linespace(input, separator + 1);
        match block_item_from(input, start) {
            Some((command, end)) => {
                proof {
                    let rest = block_tail_at(input@, end as int).0;
                    let one = seq![command@];
                    assert(commands_view(items@.push(command)) =~= commands_view(items@) + one);
                    assert(commands_view(items@) + (one + rest) =~= (commands_view(items@) + one)
                        + rest);
                }
                items.push(command);
                at = end;
            },
            None => {
                assert(commands_view(items@) + Seq::empty() =~= commands_view(items@));
                return (items, at);
            },
        }
    }
}

/// Reads an expression of the top level at `pos`.
pub(crate) fn expression_from(input: &[u8], pos: usize) -> (r: Option<(ExpressionValue, usize)>)
    requires
        pos <= input@.len(),
    ensures
        match r {
            Some((value, end)) => expression_at(input@, pos as int) == Some((value@, end as int))
                && pos < end <= input@.len(),
            None => expression_at(input@, pos as int) is None,
        },
{
    if let Some((command, end)) = command_from(input, pos) {
        return Some((ExpressionValue::Expression(command), end));
    }
    let start = skip_linespace(input, pos);
    expression_value_from(input, start)
}

/// Reads the expressions of the top level, which start at `pos`.
pub(crate) fn expressions_from(input: &[u8], pos: usize) -> (r: (Vec<ExpressionValue>, usize))
    requires
        pos <= input@.len(),
    ensures
        expressions_at(input@, pos as int) == (expressions_view(r.0@), r.1 as int),
        pos <= r.1 <= input@.len(),
{
    let mut items: Vec<ExpressionValue> = Vec::new();
    let mut at: usize = pos;
    assert(expressions_view(items@) + expressions_at(input@, at as int).0 =~= expressions_at(
        input@,
        at as int,
    ).0);
    loop
        invariant
            pos <= at <= input@.len(),
            expressions_at(input@, pos as int) == (
                expressions_view(items@) + expressions_at(input@, at as int).0,
                expressions_at(input@, at as int).1,
            ),
        decreases input@.len() - at,
    {
        match expression_from(input, at) {
            Some((expression, end)) => {
                let line_end = skip_linespace(input, end);
                if !(line_end < input.len() && is_line_end(input[line_end])) {
                    assert(expressions_view(items@) + Seq::empty() =~= expressions_view(items@));
                    return (items, at);
                }
                proof {
                    let rest = expressions_at(input@, line_end + 1).0;
                    let one = seq![expression@];
                    assert(expressions_view(items@.push(expression)) =~= expressions_view(items@)
                        + one);
                    assert(expressions_view(items@) + (one + rest) =~= (expressions_view(items@)
                        + one) + rest);
                }
                items.push(expression);
                at = line_end + 1;
            },
            None => {
                assert(expressions_view(items@) + Seq::empty() =~= expressions_view(items@));
                return (items, at);
            },
        }
    }
}

} // verus!
