//! The grammar of the language, as functions on a byte sequence and a
//! position in it. Each production answers with the value it reads and the
//! position behind it, or with `None` where the bytes at that position do not
//! match. Alternatives are tried in the order in which they are written, and
//! repetition takes as much as it can.

use vstd::prelude::*;
use crate::model::PrimitiveView;
use crate::parser::CommandView;
use crate::parser::ExpressionView;

verus! {

pub const TAB: u8 = 9;
pub const LINE_FEED: u8 = 10;
pub const CARRIAGE_RETURN: u8 = 13;
pub const SPACE: u8 = 32;
pub const DOUBLE_QUOTE: u8 = 34;
pub const SINGLE_QUOTE: u8 = 39;
pub const OPEN_PAREN: u8 = 40;
pub const CLOSE_PAREN: u8 = 41;
pub const PLUS: u8 = 43;
pub const MINUS: u8 = 45;
pub const DIGIT_ZERO: u8 = 48;
pub const DIGIT_NINE: u8 = 57;
pub const COLON: u8 = 58;
pub const SEMICOLON: u8 = 59;
pub const OPEN_BRACKET: u8 = 91;
pub const BACKSLASH: u8 = 92;
pub const CLOSE_BRACKET: u8 = 93;
pub const UNDERSCORE: u8 = 95;
pub const OPEN_BRACE: u8 = 123;
pub const CLOSE_BRACE: u8 = 125;

/// How many bytes may follow the first one in an operator identifier.
pub const OPERATOR_TAIL_LIMIT: usize = 32;

/// A digit, `0` to `9`.
pub open spec fn is_ascii_digit(c: u8) -> bool {
    DIGIT_ZERO <= c <= DIGIT_NINE
}

/// A small letter, `a` to `z`.
pub open spec fn is_ascii_lowercase(c: u8) -> bool {
    97 <= c <= 122
}

/// A capital letter, `A` to `Z`.
pub open spec fn is_ascii_uppercase(c: u8) -> bool {
    65 <= c <= 90
}

/// A letter.
pub open spec fn is_ascii_alphabetic(c: u8) -> bool {
    is_ascii_lowercase(c) || is_ascii_uppercase(c)
}

/// A byte that may start an identifier: a letter or `_`.
pub open spec fn identifier_initial(c: u8) -> bool {
    c == UNDERSCORE || is_ascii_alphabetic(c)
}

/// A byte that may continue an identifier: a letter, a digit, `-` or `_`.
pub open spec fn identifier_char(c: u8) -> bool {
    c == MINUS || c == UNDERSCORE || is_ascii_alphabetic(c) || is_ascii_digit(c)
}

/// A space or a tab.
pub open spec fn linespace_char(c: u8) -> bool {
    c == SPACE || c == TAB
}

/// A byte that ends a line: `\r`, `\n` or `;`.
pub open spec fn line_end_char(c: u8) -> bool {
    c == CARRIAGE_RETURN || c == LINE_FEED || c == SEMICOLON
}

/// A byte that may stand behind a command: a line end, `)` or `}`.
pub open spec fn terminator_char(c: u8) -> bool {
    line_end_char(c) || c == CLOSE_PAREN || c == CLOSE_BRACE
}

/// A byte that may continue an operator identifier: one of
/// `,.><+-=|^%~?:*/`.
pub open spec fn operator_subsequent_char(c: u8) -> bool {
    c == 44 || c == 46 || c == 62 || c == 60 || c == 43 || c == 45 || c == 61 || c == 124 || c
        == 94 || c == 37 || c == 126 || c == 63 || c == 58 || c == 42 || c == 47
}

/// A byte that may start an operator identifier: any that may continue one
/// but `:`.
pub open spec fn operator_initial_char(c: u8) -> bool {
    operator_subsequent_char(c) && c != COLON
}

/// The text that ASCII bytes spell.
pub open spec fn ascii_text(bytes: Seq<u8>) -> Seq<char> {
    Seq::new(bytes.len(), |i: int| bytes[i] as char)
}

/// The end of the longest run of identifier bytes that starts at `pos`.
pub open spec fn identifier_end(s: Seq<u8>, pos: int) -> int
    decreases s.len() - pos,
{
    if 0 <= pos < s.len() && identifier_char(s[pos]) {
        identifier_end(s, pos + 1)
    } else {
        pos
    }
}

/// The end of the longest run of digits that starts at `pos`.
pub open spec fn digits_end(s: Seq<u8>, pos: int) -> int
    decreases s.len() - pos,
{
    if 0 <= pos < s.len() && is_ascii_digit(s[pos]) {
        digits_end(s, pos + 1)
    } else {
        pos
    }
}

/// The end of the longest run of spaces and tabs that starts at `pos`; `pos`
/// itself where there is none.
pub open spec fn linespace_end(s: Seq<u8>, pos: int) -> int
    decreases s.len() - pos,
{
    if 0 <= pos < s.len() && linespace_char(s[pos]) {
        linespace_end(s, pos + 1)
    } else {
        pos
    }
}

/// The end of the longest run of at most `budget` operator bytes that starts
/// at `pos`.
pub open spec fn operator_end(s: Seq<u8>, pos: int, budget: nat) -> int
    decreases budget,
{
    if budget > 0 && 0 <= pos < s.len() && operator_subsequent_char(s[pos]) {
        operator_end(s, pos + 1, (budget - 1) as nat)
    } else {
        pos
    }
}

/// An identifier: one initial byte and the identifier bytes that follow it.
pub open spec fn identifier_at(s: Seq<u8>, pos: int) -> Option<(Seq<char>, int)> {
    if 0 <= pos < s.len() && identifier_initial(s[pos]) {
        let end = identifier_end(s, pos + 1);
        Some((ascii_text(s.subrange(pos, end)), end))
    } else {
        None
    }
}

/// An operator identifier: one initial operator byte and at most
/// `OPERATOR_TAIL_LIMIT` operator bytes behind it.
pub open spec fn operator_identifier_at(s: Seq<u8>, pos: int) -> Option<(Seq<char>, int)> {
    if 0 <= pos < s.len() && operator_initial_char(s[pos]) {
        let end = operator_end(s, pos + 1, OPERATOR_TAIL_LIMIT as nat);
        Some((ascii_text(s.subrange(pos, end)), end))
    } else {
        None
    }
}

/// The number that decimal digits spell.
pub open spec fn decimal_value(digits: Seq<u8>) -> nat
    decreases digits.len(),
{
    if digits.len() == 0 {
        0
    } else {
        decimal_value(digits.drop_last()) * 10 + (digits.last() - DIGIT_ZERO) as nat
    }
}

/// Whether a sign stands at `pos`.
pub open spec fn sign_at(s: Seq<u8>, pos: int) -> bool {
    0 <= pos < s.len() && (s[pos] == PLUS || s[pos] == MINUS)
}

/// A decimal integer: an optional sign and one digit or more, where the
/// number fits into 64 bits with a sign.
pub open spec fn integer_at(s: Seq<u8>, pos: int) -> Option<(i64, int)> {
    let start = if sign_at(s, pos) { pos + 1 } else { pos };
    let end = digits_end(s, start);
    let magnitude = decimal_value(s.subrange(start, end)) as int;
    let value = if sign_at(s, pos) && s[pos] == MINUS { -magnitude } else { magnitude };
    if 0 <= pos && start < end && i64::MIN <= value <= i64::MAX {
        Some((value as i64, end))
    } else {
        None
    }
}

/// Whether the bytes of `tag` stand at `pos`.
pub open spec fn tag_at(s: Seq<u8>, pos: int, tag: Seq<u8>) -> bool {
    &&& 0 <= pos
    &&& pos + tag.len() <= s.len()
    &&& forall|k: int| 0 <= k < tag.len() ==> s[pos + k] == tag[k]
}

/// The bytes of `true`.
pub open spec fn true_tag() -> Seq<u8> {
    seq![116u8, 114u8, 117u8, 101u8]
}

/// The bytes of `false`.
pub open spec fn false_tag() -> Seq<u8> {
    seq![102u8, 97u8, 108u8, 115u8, 101u8]
}

/// A boolean: `true` or `false`.
pub open spec fn boolean_at(s: Seq<u8>, pos: int) -> Option<(bool, int)> {
    if tag_at(s, pos, true_tag()) {
        Some((true, pos + 4))
    } else if tag_at(s, pos, false_tag()) {
        Some((false, pos + 5))
    } else {
        None
    }
}

/// The byte that stands for the escape `\c`, where there is one.
pub open spec fn unescaped(c: u8) -> Option<u8> {
    if c == BACKSLASH {
        Some(BACKSLASH)
    } else if c == DOUBLE_QUOTE {
        Some(DOUBLE_QUOTE)
    } else if c == 110 {
        Some(LINE_FEED)
    } else if c == 114 {
        Some(CARRIAGE_RETURN)
    } else if c == 116 {
        Some(TAB)
    } else {
        None
    }
}

/// The bytes of a string literal's content that starts at `pos`, escapes
/// resolved, and the position of the double quote that closes it.
pub open spec fn string_content_at(s: Seq<u8>, pos: int) -> Option<(Seq<u8>, int)>
    decreases s.len() - pos,
{
    if !(0 <= pos < s.len()) {
        None
    } else if s[pos] == DOUBLE_QUOTE {
        Some((Seq::empty(), pos))
    } else if s[pos] == BACKSLASH {
        if pos + 1 < s.len() && unescaped(s[pos + 1]) is Some {
            match string_content_at(s, pos + 2) {
                Some((rest, end)) => Some((seq![unescaped(s[pos + 1])->0] + rest, end)),
                None => None,
            }
        } else {
            None
        }
    } else {
        match string_content_at(s, pos + 1) {
            Some((rest, end)) => Some((seq![s[pos]] + rest, end)),
            None => None,
        }
    }
}

/// What `String::from_utf8_lossy` makes of a byte sequence.
pub uninterp spec fn utf8_lossy(bytes: Seq<u8>) -> Seq<char>;

/// A string literal: its content between double quotes.
pub open spec fn string_at(s: Seq<u8>, pos: int) -> Option<(Seq<char>, int)> {
    if 0 <= pos < s.len() && s[pos] == DOUBLE_QUOTE {
        match string_content_at(s, pos + 1) {
            Some((content, end)) => Some((utf8_lossy(content), end + 1)),
            None => None,
        }
    } else {
        None
    }
}

/// A character literal: one byte between single quotes.
pub open spec fn character_at(s: Seq<u8>, pos: int) -> Option<(Seq<char>, int)> {
    if 0 <= pos && pos + 2 < s.len() && s[pos] == SINGLE_QUOTE && s[pos + 2] == SINGLE_QUOTE {
        Some((seq![s[pos + 1] as char], pos + 3))
    } else {
        None
    }
}

/// A primitive literal: an integer, a boolean, a string or a bare name, tried
/// in this order.
pub open spec fn primitive_at(s: Seq<u8>, pos: int) -> Option<(PrimitiveView, int)> {
    if let Some((value, end)) = integer_at(s, pos) {
        Some((PrimitiveView::Int(value), end))
    } else if let Some((value, end)) = boolean_at(s, pos) {
        Some((PrimitiveView::Bool(value), end))
    } else if let Some((text, end)) = string_at(s, pos) {
        Some((PrimitiveView::String(text), end))
    } else if let Some((name, end)) = identifier_at(s, pos) {
        Some((PrimitiveView::Name(name), end))
    } else {
        None
    }
}

/// The name of a command: an identifier or an operator identifier.
pub open spec fn command_name_at(s: Seq<u8>, pos: int) -> Option<(Seq<char>, int)> {
    if identifier_at(s, pos) is Some {
        identifier_at(s, pos)
    } else {
        operator_identifier_at(s, pos)
    }
}

/// The label of an argument: an identifier with `:` behind it, or an
/// operator identifier.
pub open spec fn label_at(s: Seq<u8>, pos: int) -> Option<(Seq<char>, int)> {
    match identifier_at(s, pos) {
        Some((name, end)) if end < s.len() && s[end] == COLON => Some((name, end + 1)),
        _ => operator_identifier_at(s, pos),
    }
}

/// A run of spaces and tabs ends inside the input, holds nothing else, and
/// has no space or tab behind it.
pub proof fn lemma_linespace_end_bounds(s: Seq<u8>, pos: int)
    requires
        0 <= pos <= s.len(),
    ensures
        pos <= linespace_end(s, pos) <= s.len(),
        forall|i: int| pos <= i < linespace_end(s, pos) ==> linespace_char(s[i]),
        linespace_end(s, pos) < s.len() ==> !linespace_char(s[linespace_end(s, pos)]),
    decreases s.len() - pos,
{
    if pos < s.len() && linespace_char(s[pos]) {
        lemma_linespace_end_bounds(s, pos + 1);
    }
}

/// A run of identifier bytes ends inside the input, holds nothing else, and
/// has no identifier byte behind it.
pub proof fn lemma_identifier_end_bounds(s: Seq<u8>, pos: int)
    requires
        0 <= pos <= s.len(),
    ensures
        pos <= identifier_end(s, pos) <= s.len(),
        forall|i: int| pos <= i < identifier_end(s, pos) ==> identifier_char(s[i]),
        identifier_end(s, pos) < s.len() ==> !identifier_char(s[identifier_end(s, pos)]),
    decreases s.len() - pos,
{
    if pos < s.len() && identifier_char(s[pos]) {
        lemma_identifier_end_bounds(s, pos + 1);
    }
}

/// A run of digits ends inside the input, holds nothing else, and has no
/// digit behind it.
pub proof fn lemma_digits_end_bounds(s: Seq<u8>, pos: int)
    requires
        0 <= pos <= s.len(),
    ensures
        pos <= digits_end(s, pos) <= s.len(),
        forall|i: int| pos <= i < digits_end(s, pos) ==> is_ascii_digit(s[i]),
        digits_end(s, pos) < s.len() ==> !is_ascii_digit(s[digits_end(s, pos)]),
    decreases s.len() - pos,
{
    if pos < s.len() && is_ascii_digit(s[pos]) {
        lemma_digits_end_bounds(s, pos + 1);
    }
}

/// A run of operator bytes ends inside the input, holds nothing else, is no
/// longer than its budget, and stops short of it only before another byte.
pub proof fn lemma_operator_end_bounds(s: Seq<u8>, pos: int, budget: nat)
    requires
        0 <= pos <= s.len(),
    ensures
        pos <= operator_end(s, pos, budget) <= s.len(),
        operator_end(s, pos, budget) <= pos + budget,
        forall|i: int| pos <= i < operator_end(s, pos, budget) ==> operator_subsequent_char(s[i]),
        operator_end(s, pos, budget) < s.len() && operator_end(s, pos, budget) < pos + budget
            ==> !operator_subsequent_char(s[operator_end(s, pos, budget)]),
    decreases budget,
{
    if budget > 0 && pos < s.len() && operator_subsequent_char(s[pos]) {
        lemma_operator_end_bounds(s, pos + 1, (budget - 1) as nat);
    }
}

/// A name or a label takes at least one byte, and ends inside the input.
pub proof fn lemma_name_bounds(s: Seq<u8>, pos: int)
    ensures
        command_name_at(s, pos) matches Some((_, end)) ==> 0 <= pos < end <= s.len(),
        label_at(s, pos) matches Some((_, end)) ==> 0 <= pos < end <= s.len(),
{
    if 0 <= pos < s.len() {
        lemma_identifier_end_bounds(s, pos + 1);
        lemma_operator_end_bounds(s, pos + 1, OPERATOR_TAIL_LIMIT as nat);
    }
}

/// A value: a procedure literal, a block, a command in parentheses or a
/// primitive literal, tried in this order.
pub open spec fn expression_value_at(s: Seq<u8>, pos: int) -> Option<(ExpressionView, int)>
    decreases s.len() - pos, 2nat,
{
    if let Some(found) = procedure_at(s, pos) {
        Some(found)
    } else if let Some((commands, end)) = block_at(s, pos) {
        Some((ExpressionView::Block(commands), end))
    } else if let Some((command, end)) = command_expression_at(s, pos) {
        Some((ExpressionView::Expression(command), end))
    } else if let Some((value, end)) = primitive_at(s, pos) {
        Some((ExpressionView::Primitive(value), end))
    } else {
        None
    }
}

/// A parameter list: parameters in square brackets.
pub open spec fn argument_list_at(s: Seq<u8>, pos: int) -> Option<
    (Seq<(Seq<char>, ExpressionView)>, int),
>
    decreases s.len() - pos, 0nat,
{
    if 0 <= pos < s.len() && s[pos] == OPEN_BRACKET {
        let (parameters, close) = parameters_at(s, pos + 1);
        if 0 <= close < s.len() && s[close] == CLOSE_BRACKET {
            Some((parameters, close + 1))
        } else {
            None
        }
    } else {
        None
    }
}

/// A procedure literal: a parameter list and a block. Spaces and tabs may
/// stand before the list and before the block.
pub open spec fn procedure_at(s: Seq<u8>, pos: int) -> Option<(ExpressionView, int)>
    decreases s.len() - pos, 1nat,
{
    if 0 <= pos <= s.len() {
        proof {
            lemma_linespace_end_bounds(s, pos);
        }
        match argument_list_at(s, linespace_end(s, pos)) {
            Some((parameters, after)) if pos < after <= s.len() => {
                proof {
                    lemma_linespace_end_bounds(s, after);
                }
                match block_at(s, linespace_end(s, after)) {
                    Some((body, end)) => Some((ExpressionView::Procedure(parameters, body), end)),
                    None => None,
                }
            },
            _ => None,
        }
    } else {
        None
    }
}

/// The parameters of a procedure literal: arguments, each with spaces and
/// tabs before it or none, as many as can be read.
pub open spec fn parameters_at(s: Seq<u8>, pos: int) -> (Seq<(Seq<char>, ExpressionView)>, int)
    decreases s.len() - pos, 4nat,
{
    if 0 <= pos <= s.len() {
        proof {
            lemma_linespace_end_bounds(s, pos);
        }
        match argument_at(s, linespace_end(s, pos)) {
            Some((argument, end)) if pos < end <= s.len() => {
                let (rest, stop) = parameters_at(s, end);
                (seq![argument] + rest, stop)
            },
            _ => (Seq::empty(), pos),
        }
    } else {
        (Seq::empty(), pos)
    }
}

/// An argument: a label and a value, or a value alone, whose label is then
/// empty.
pub open spec fn argument_at(s: Seq<u8>, pos: int) -> Option<((Seq<char>, ExpressionView), int)>
    decreases s.len() - pos, 3nat,
{
    if let Some(found) = argument_pair_at(s, pos) {
        Some(found)
    } else if let Some((value, end)) = expression_value_at(s, pos) {
        Some(((Seq::empty(), value), end))
    } else {
        None
    }
}

/// A label, spaces or tabs, and a value.
pub open spec fn argument_pair_at(s: Seq<u8>, pos: int) -> Option<
    ((Seq<char>, ExpressionView), int),
>
    decreases s.len() - pos, 0nat,
{
    match label_at(s, pos) {
        Some((label, after)) => {
            let start = linespace_end(s, after);
            proof {
                lemma_name_bounds(s, pos);
            }
            if after < start <= s.len() {
                match expression_value_at(s, start) {
                    Some((value, end)) => Some(((label, value), end)),
                    None => None,
                }
            } else {
                None
            }
        },
        None => None,
    }
}

/// The arguments of a command: arguments with spaces or tabs between them,
/// as many as can be read. Where no argument follows a separator, the list
/// ends before the separator.
pub open spec fn arguments_at(s: Seq<u8>, pos: int) -> (Seq<(Seq<char>, ExpressionView)>, int)
    decreases s.len() - pos, 4nat,
{
    if 0 <= pos <= s.len() {
        proof {
            lemma_linespace_end_bounds(s, pos);
        }
        match argument_at(s, linespace_end(s, pos)) {
            Some((argument, end)) if pos < end <= s.len() => {
                let (rest, stop) = arguments_tail_at(s, end);
                (seq![argument] + rest, stop)
            },
            _ => (Seq::empty(), pos),
        }
    } else {
        (Seq::empty(), pos)
    }
}

/// The arguments that follow one that ended at `pos`.
pub open spec fn arguments_tail_at(s: Seq<u8>, pos: int) -> (
    Seq<(Seq<char>, ExpressionView)>,
    int,
)
    decreases s.len() - pos, 0nat,
{
    let start = linespace_end(s, pos);
    if 0 <= pos < start <= s.len() {
        match argument_at(s, start) {
            Some((argument, end)) if start < end <= s.len() => {
                let (rest, stop) = arguments_tail_at(s, end);
                (seq![argument] + rest, stop)
            },
            _ => (Seq::empty(), pos),
        }
    } else {
        (Seq::empty(), pos)
    }
}

/// A command: a name and arguments, with a terminator behind them that is
/// looked at and left where it is. Spaces and tabs may stand before the
/// name, behind it and before the terminator.
pub open spec fn command_at(s: Seq<u8>, pos: int) -> Option<(CommandView, int)>
    decreases s.len() - pos, 0nat,
{
    if 0 <= pos <= s.len() {
        let start = linespace_end(s, pos);
        match command_name_at(s, start) {
            Some((name, after)) => {
                proof {
                    lemma_linespace_end_bounds(s, pos);
                    lemma_name_bounds(s, start);
                    lemma_linespace_end_bounds(s, after);
                }
                let (args, stop) = arguments_at(s, linespace_end(s, after));
                let end = linespace_end(s, stop);
                if 0 <= end < s.len() && terminator_char(s[end]) {
                    Some((CommandView { name, args }, end))
                } else {
                    None
                }
            },
            None => None,
        }
    } else {
        None
    }
}

/// A command in parentheses.
pub open spec fn command_expression_at(s: Seq<u8>, pos: int) -> Option<(CommandView, int)>
    decreases s.len() - pos, 0nat,
{
    if 0 <= pos < s.len() && s[pos] == OPEN_PAREN {
        match command_at(s, pos + 1) {
            Some((command, end)) if 0 <= end < s.len() && s[end] == CLOSE_PAREN => Some(
                (command, end + 1),
            ),
            _ => None,
        }
    } else {
        None
    }
}

/// A block: commands in braces. Spaces and tabs may stand before the closing
/// brace.
pub open spec fn block_at(s: Seq<u8>, pos: int) -> Option<(Seq<CommandView>, int)>
    decreases s.len() - pos, 0nat,
{
    if 0 <= pos < s.len() && s[pos] == OPEN_BRACE {
        let (commands, stop) = block_commands_at(s, pos + 1);
        let close = linespace_end(s, stop);
        if 0 <= close < s.len() && s[close] == CLOSE_BRACE {
            Some((commands, close + 1))
        } else {
            None
        }
    } else {
        None
    }
}

/// A command of a block: a command as it stands, or one in parentheses with
/// spaces and tabs before it or none.
pub open spec fn block_item_at(s: Seq<u8>, pos: int) -> Option<(CommandView, int)>
    decreases s.len() - pos, 1nat,
{
    if 0 <= pos <= s.len() {
        if let Some(found) = command_at(s, pos) {
            Some(found)
        } else {
            proof {
                lemma_linespace_end_bounds(s, pos);
            }
            command_expression_at(s, linespace_end(s, pos))
        }
    } else {
        None
    }
}

/// The commands of a block, with a line end between each two of them. Where
/// no command follows a line end, the list ends before it.
pub open spec fn block_commands_at(s: Seq<u8>, pos: int) -> (Seq<CommandView>, int)
    decreases s.len() - pos, 2nat,
{
    match block_item_at(s, pos) {
        Some((command, end)) if 0 <= pos < end <= s.len() => {
            let (rest, stop) = block_tail_at(s, end);
            (seq![command] + rest, stop)
        },
        _ => (Seq::empty(), pos),
    }
}

/// The commands of a block that follow one that ended at `pos`.
pub open spec fn block_tail_at(s: Seq<u8>, pos: int) -> (Seq<CommandView>, int)
    decreases s.len() - pos, 0nat,
{
    let separator = linespace_end(s, pos);
    if 0 <= pos <= separator < s.len() && line_end_char(s[separator]) {
        let start = linespace_end(s, separator + 1);
        proof {
            lemma_linespace_end_bounds(s, separator + 1);
        }
        match block_item_at(s, start) {
            Some((command, end)) if start < end <= s.len() => {
                let (rest, stop) = block_tail_at(s, end);
                (seq![command] + rest, stop)
            },
            _ => (Seq::empty(), pos),
        }
    } else {
        (Seq::empty(), pos)
    }
}

/// An expression of the top level: a command as it stands, or a value with
/// spaces and tabs before it or none.
pub open spec fn expression_at(s: Seq<u8>, pos: int) -> Option<(ExpressionView, int)> {
    if let Some((command, end)) = command_at(s, pos) {
        Some((ExpressionView::Expression(command), end))
    } else {
        expression_value_at(s, linespace_end(s, pos))
    }
}

/// The expressions of the top level, each with a line end behind it, as many
/// as can be read, and the position at which reading stopped. Spaces and
/// tabs may stand before the line end.
pub open spec fn expressions_at(s: Seq<u8>, pos: int) -> (Seq<ExpressionView>, int)
    decreases s.len() - pos,
{
    match expression_at(s, pos) {
        Some((expression, end)) => {
            let line_end = linespace_end(s, end);
            if 0 <= pos <= end <= line_end < s.len() && line_end_char(s[line_end]) {
                let (rest, stop) = expressions_at(s, line_end + 1);
                (seq![expression] + rest, stop)
            } else {
                (Seq::empty(), pos)
            }
        },
        None => (Seq::empty(), pos),
    }
}

/// A production of the lexical level takes at least one byte, and ends
/// inside the input.
pub proof fn lemma_primitive_bounds(s: Seq<u8>, pos: int)
    ensures
        primitive_at(s, pos) matches Some((_, end)) ==> 0 <= pos < end <= s.len(),
{
    if 0 <= pos <= s.len() {
        if sign_at(s, pos) {
            lemma_digits_end_bounds(s, pos + 1);
        } else {
            lemma_digits_end_bounds(s, pos);
        }
        if pos < s.len() {
            lemma_identifier_end_bounds(s, pos + 1);
            lemma_string_content_bounds(s, pos + 1);
        }
    }
}

/// The content of a string literal ends at a byte of the input.
pub proof fn lemma_string_content_bounds(s: Seq<u8>, pos: int)
    requires
        0 <= pos,
    ensures
        string_content_at(s, pos) matches Some((_, end)) ==> pos <= end < s.len(),
    decreases s.len() - pos,
{
    if pos < s.len() && s[pos] != DOUBLE_QUOTE {
        if s[pos] == BACKSLASH {
            if pos + 1 < s.len() {
                lemma_string_content_bounds(s, pos + 2);
            }
        } else {
            lemma_string_content_bounds(s, pos + 1);
        }
    }
}

/// Every production that reads something takes at least one byte, and every
/// production ends inside the input.
pub proof fn lemma_productions_advance(s: Seq<u8>, pos: int)
    requires
        0 <= pos <= s.len(),
    ensures
        expression_value_at(s, pos) matches Some((_, end)) ==> pos < end <= s.len(),
        procedure_at(s, pos) matches Some((_, end)) ==> pos < end <= s.len(),
        argument_list_at(s, pos) matches Some((_, end)) ==> pos < end <= s.len(),
        argument_at(s, pos) matches Some((_, end)) ==> pos < end <= s.len(),
        argument_pair_at(s, pos) matches Some((_, end)) ==> pos < end <= s.len(),
        command_at(s, pos) matches Some((_, end)) ==> pos < end < s.len(),
        command_expression_at(s, pos) matches Some((_, end)) ==> pos < end <= s.len(),
        block_at(s, pos) matches Some((_, end)) ==> pos < end <= s.len(),
        block_item_at(s, pos) matches Some((_, end)) ==> pos < end <= s.len(),
        pos <= parameters_at(s, pos).1 <= s.len(),
        pos <= arguments_at(s, pos).1 <= s.len(),
        pos <= arguments_tail_at(s, pos).1 <= s.len(),
        pos <= block_commands_at(s, pos).1 <= s.len(),
        pos <= block_tail_at(s, pos).1 <= s.len(),
    decreases s.len() - pos,
{
    let blank = linespace_end(s, pos);
    lemma_linespace_end_bounds(s, pos);
    lemma_primitive_bounds(s, pos);
    lemma_name_bounds(s, pos);
    lemma_name_bounds(s, blank);
    if pos < s.len() {
        lemma_productions_advance(s, pos + 1);
    }
    if pos < blank {
        lemma_productions_advance(s, blank);
    }
    // what stands behind a label
    if let Some((_, after)) = label_at(s, pos) {
        lemma_linespace_end_bounds(s, after);
        if after < linespace_end(s, after) {
            lemma_productions_advance(s, linespace_end(s, after));
        }
    }
    if let Some((_, after)) = label_at(s, blank) {
        lemma_linespace_end_bounds(s, after);
        if after < linespace_end(s, after) {
            lemma_productions_advance(s, linespace_end(s, after));
        }
    }
    // what stands behind the name of a command
    if let Some((_, after)) = command_name_at(s, blank) {
        lemma_linespace_end_bounds(s, after);
        lemma_productions_advance(s, linespace_end(s, after));
        lemma_linespace_end_bounds(s, arguments_at(s, linespace_end(s, after)).1);
    }
    // what stands behind a parameter list
    if let Some((_, after)) = argument_list_at(s, blank) {
        if pos < after <= s.len() {
            lemma_linespace_end_bounds(s, after);
            lemma_productions_advance(s, linespace_end(s, after));
        }
    }
    // what stands behind the commands of a block
    if pos < s.len() {
        lemma_linespace_end_bounds(s, block_commands_at(s, pos + 1).1);
    }
    // what stands behind an argument or a command of a list
    if let Some((_, end)) = argument_at(s, blank) {
        if pos < end <= s.len() {
            lemma_productions_advance(s, end);
        }
    }
    if let Some((_, end)) = block_item_at(s, pos) {
        if pos < end <= s.len() {
            lemma_productions_advance(s, end);
        }
    }
    if blank < s.len() && line_end_char(s[blank]) {
        let start = linespace_end(s, blank + 1);
        lemma_linespace_end_bounds(s, blank + 1);
        lemma_productions_advance(s, start);
        if let Some((_, end)) = block_item_at(s, start) {
            if start < end <= s.len() {
                lemma_productions_advance(s, end);
            }
        }
    }
}

/// Reading the expressions of the top level stops inside the input, and not
/// before the position at which it started.
pub proof fn lemma_expressions_bounds(s: Seq<u8>, pos: int)
    requires
        0 <= pos <= s.len(),
    ensures
        pos <= expressions_at(s, pos).1 <= s.len(),
    decreases s.len() - pos,
{
    if let Some((_, end)) = expression_at(s, pos) {
        let line_end = linespace_end(s, end);
        if pos <= end <= line_end < s.len() && line_end_char(s[line_end]) {
            lemma_expressions_bounds(s, line_end + 1);
        }
    }
}

} // verus!
