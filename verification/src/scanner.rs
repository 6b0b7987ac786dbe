//! The words of the language, read from a byte slice at a position.

use vstd::prelude::*;
use vstd::slice::slice_subrange;
use vstd::utf8::decode_utf8;
use vstd::utf8::encode_utf8;
use vstd::utf8::encode_utf8_decode_utf8;
use vstd::utf8::encode_utf8_valid_utf8;
use vstd::utf8::is_ascii_chars;
use vstd::utf8::is_ascii_chars_encode_utf8;
use vstd::utf8::valid_utf8;
use crate::grammar::ascii_text;
use crate::grammar::BACKSLASH;
use crate::grammar::boolean_at;
use crate::grammar::CARRIAGE_RETURN;
use crate::grammar::character_at;
use crate::grammar::CLOSE_BRACE;
use crate::grammar::CLOSE_PAREN;
use crate::grammar::COLON;
use crate::grammar::decimal_value;
use crate::grammar::DIGIT_NINE;
use crate::grammar::DIGIT_ZERO;
use crate::grammar::digits_end;
use crate::grammar::DOUBLE_QUOTE;
use crate::grammar::false_tag;
use crate::grammar::identifier_at;
use crate::grammar::identifier_char;
use crate::grammar::identifier_end;
use crate::grammar::integer_at;
use crate::grammar::is_ascii_digit;
use crate::grammar::line_end_char;
use crate::grammar::LINE_FEED;
use crate::grammar::linespace_end;
use crate::grammar::MINUS;
use crate::grammar::operator_end;
use crate::grammar::operator_identifier_at;
use crate::grammar::operator_initial_char;
use crate::grammar::operator_subsequent_char;
use crate::grammar::OPERATOR_TAIL_LIMIT;
use crate::grammar::PLUS;
use crate::grammar::primitive_at;
use crate::grammar::SEMICOLON;
use crate::grammar::SINGLE_QUOTE;
use crate::grammar::string_at;
use crate::grammar::string_content_at;
use crate::grammar::TAB;
use crate::grammar::tag_at;
use crate::grammar::terminator_char;
use crate::grammar::true_tag;
use crate::grammar::unescaped;
use crate::model::PrimitiveData;
use crate::parser::is_identifier_char;
use crate::parser::is_identifier_initial;
use crate::parser::is_linespace;
use crate::parser::to_s;
use crate::parser::vec_to_string;

verus! {

pub(crate) fn is_digit(chr: u8) -> (r: bool)
    ensures
        r == is_ascii_digit(chr),
{
    DIGIT_ZERO <= chr && chr <= DIGIT_NINE
}

pub(crate) fn is_line_end(chr: u8) -> (r: bool)
    ensures
        r == line_end_char(chr),
{
    chr == CARRIAGE_RETURN || chr == LINE_FEED || chr == SEMICOLON
}

pub(crate) fn is_terminator(chr: u8) -> (r: bool)
    ensures
        r == terminator_char(chr),
{
    is_line_end(chr) || chr == CLOSE_PAREN || chr == CLOSE_BRACE
}

pub(crate) fn is_operator_subsequent(chr: u8) -> (r: bool)
    ensures
        r == operator_subsequent_char(chr),
{
    chr == 44 || chr == 46 || chr == 62 || chr == 60 || chr == 43 || chr == 45 || chr == 61 || chr
        == 124 || chr == 94 || chr == 37 || chr == 126 || chr == 63 || chr == 58 || chr == 42
        || chr == 47
}

pub(crate) fn is_operator_initial(chr: u8) -> (r: bool)
    ensures
        r == operator_initial_char(chr),
{
    is_operator_subsequent(chr) && chr != COLON
}

/// Calls `String::from` on a character. The contract claims that the text
/// holds this character and nothing else.
#[verifier::external_body]
fn character_text(c: char) -> (r: String)
    ensures
        r@ == seq![c],
{
    String::from(c)
}

/// ASCII bytes are valid UTF-8, and encode the text that they spell.
pub proof fn lemma_ascii_decodes(bytes: Seq<u8>)
    requires
        forall|i: int| 0 <= i < bytes.len() ==> bytes[i] < 128,
    ensures
        valid_utf8(bytes),
        decode_utf8(bytes) == ascii_text(bytes),
{
    let chars = ascii_text(bytes);
    assert(is_ascii_chars(chars));
    is_ascii_chars_encode_utf8(chars);
    assert(encode_utf8(chars) =~= bytes);
    encode_utf8_valid_utf8(chars);
    encode_utf8_decode_utf8(chars);
}

/// The text that the ASCII bytes from `start` to `end` spell.
pub(crate) fn ascii_string(input: &[u8], start: usize, end: usize) -> (r: String)
    requires
        start <= end <= input@.len(),
        forall|i: int| start <= i < end ==> input@[i] < 128,
    ensures
        r@ == ascii_text(input@.subrange(start as int, end as int)),
{
    proof {
        lemma_ascii_decodes(input@.subrange(start as int, end as int));
    }
    vec_to_string(slice_subrange(input, start, end))
}

/// The position behind the spaces and tabs that stand at `start`.
pub(crate) fn skip_linespace(input: &[u8], start: usize) -> (end: usize)
    requires
        start <= input@.len(),
    ensures
        start <= end <= input@.len(),
        end == linespace_end(input@, start as int),
{
    let mut i: usize = start;
    while i < input.len() && is_linespace(input[i])
        invariant
            start <= i <= input@.len(),
            linespace_end(input@, start as int) == linespace_end(input@, i as int),
        decreases input@.len() - i,
    {
        i += 1;
    }
    i
}

fn scan_identifier(input: &[u8], start: usize) -> (end: usize)
    requires
        start <= input@.len(),
    ensures
        start <= end <= input@.len(),
        end == identifier_end(input@, start as int),
        forall|i: int| start <= i < end ==> identifier_char(input@[i]),
{
    let mut i: usize = start;
    while i < input.len() && is_identifier_char(input[i])
        invariant
            start <= i <= input@.len(),
            identifier_end(input@, start as int) == identifier_end(input@, i as int),
            forall|j: int| start <= j < i ==> identifier_char(input@[j]),
        decreases input@.len() - i,
    {
        i += 1;
    }
    i
}

fn scan_operator(input: &[u8], start: usize) -> (end: usize)
    requires
        start <= input@.len(),
    ensures
        start <= end <= input@.len(),
        end == operator_end(input@, start as int, OPERATOR_TAIL_LIMIT as nat),
        forall|i: int| start <= i < end ==> operator_subsequent_char(input@[i]),
{
    let mut i: usize = start;
    let mut budget: usize = OPERATOR_TAIL_LIMIT;
    while budget > 0 && i < input.len() && is_operator_subsequent(input[i])
        invariant
            start <= i <= input@.len(),
            operator_end(input@, start as int, OPERATOR_TAIL_LIMIT as nat) == operator_end(
                input@,
                i as int,
                budget as nat,
            ),
            forall|j: int| start <= j < i ==> operator_subsequent_char(input@[j]),
        decreases budget,
    {
        i += 1;
        budget -= 1;
    }
    i
}

/// Reads an identifier at `pos`.
pub(crate) fn identifier_from(input: &[u8], pos: usize) -> (r: Option<(String, usize)>)
    requires
        pos <= input@.len(),
    ensures
        match r {
            Some((name, end)) => identifier_at(input@, pos as int) == Some((name@, end as int))
                && pos < end <= input@.len(),
            None => identifier_at(input@, pos as int) is None,
        },
{
    if pos < input.len() && is_identifier_initial(input[pos]) {
        let end = scan_identifier(input, pos + 1);
        Some((ascii_string(input, pos, end), end))
    } else {
        None
    }
}

/// Reads an operator identifier at `pos`.
pub(crate) fn operator_identifier_from(input: &[u8], pos: usize) -> (r: Option<(String, usize)>)
    requires
        pos <= input@.len(),
    ensures
        match r {
            Some((name, end)) => operator_identifier_at(input@, pos as int) == Some(
                (name@, end as int),
            ) && pos < end <= input@.len(),
            None => operator_identifier_at(input@, pos as int) is None,
        },
{
    if pos < input.len() && is_operator_initial(input[pos]) {
        let end = scan_operator(input, pos + 1);
        Some((ascii_string(input, pos, end), end))
    } else {
        None
    }
}

/// Reads a decimal integer at `pos`.
pub(crate) fn integer_decimal_from(input: &[u8], pos: usize) -> (r: Option<(i64, usize)>)
    requires
        pos <= input@.len(),
    ensures
        match r {
            Some((value, end)) => integer_at(input@, pos as int) == Some((value, end as int))
                && pos < end <= input@.len(),
            None => integer_at(input@, pos as int) is None,
        },
{
    let signed = pos < input.len() && (input[pos] == PLUS || input[pos] == MINUS);
    let negative = signed && input[pos] == MINUS;
    let start: usize = if signed {
        pos + 1
    } else {
        pos
    };
    let limit: u128 = 9223372036854775808;
    let mut magnitude: u128 = 0;
    let mut over = false;
    let mut i: usize = start;
    while i < input.len() && is_digit(input[i])
        invariant
            start <= i <= input@.len(),
            digits_end(input@, start as int) == digits_end(input@, i as int),
            limit == 9223372036854775808,
            !over ==> magnitude <= limit && magnitude == decimal_value(
                input@.subrange(start as int, i as int),
            ),
            over ==> decimal_value(input@.subrange(start as int, i as int)) > limit,
        decreases input@.len() - i,
    {
        let digit: u128 = (input[i] - DIGIT_ZERO) as u128;
        proof {
            let longer = input@.subrange(start as int, i + 1);
            assert(longer.drop_last() =~= input@.subrange(start as int, i as int));
            assert(longer.last() == input@[i as int]);
        }
        if !over {
            magnitude = magnitude * 10 + digit;
            if magnitude > limit {
                over = true;
            }
        }
        i += 1;
    }
    if i == start || over {
        return None;
    }
    if negative {
        let value: i128 = 0 - (magnitude as i128);
        Some((value as i64, i))
    } else if magnitude < limit {
        Some((magnitude as i64, i))
    } else {
        None
    }
}

/// Reads `true` or `false` at `pos`.
pub(crate) fn boolean_from(input: &[u8], pos: usize) -> (r: Option<(bool, usize)>)
    requires
        pos <= input@.len(),
    ensures
        match r {
            Some((value, end)) => boolean_at(input@, pos as int) == Some((value, end as int))
                && pos < end <= input@.len(),
            None => boolean_at(input@, pos as int) is None,
        },
{
    let left: usize = input.len() - pos;
    if left >= 4 && input[pos] == 116 && input[pos + 1] == 114 && input[pos + 2] == 117 && input[pos
        + 3] == 101 {
        assert(tag_at(input@, pos as int, true_tag()));
        Some((true, pos + 4))
    } else if left >= 5 && input[pos] == 102 && input[pos + 1] == 97 && input[pos + 2] == 108
        && input[pos + 3] == 115 && input[pos + 4] == 101 {
        assert(tag_at(input@, pos as int, false_tag()));
        assert(!tag_at(input@, pos as int, true_tag())) by {
            assert(true_tag()[0] == 116);
        }
        Some((false, pos + 5))
    } else {
        assert(!tag_at(input@, pos as int, true_tag())) by {
            let t = true_tag();
            assert(t[0] == 116 && t[1] == 114 && t[2] == 117 && t[3] == 101);
        }
        assert(!tag_at(input@, pos as int, false_tag())) by {
            let t = false_tag();
            assert(t[0] == 102 && t[1] == 97 && t[2] == 108 && t[3] == 115 && t[4] == 101);
        }
        None
    }
}

/// What the content of a string literal is, where `prefix` has been read
/// and `rest` is what follows.
pub open spec fn joined(prefix: Seq<u8>, rest: Option<(Seq<u8>, int)>) -> Option<(Seq<u8>, int)> {
    match rest {
        Some((bytes, end)) => Some((prefix + bytes, end)),
        None => None,
    }
}

fn unescape(chr: u8) -> (r: Option<u8>)
    ensures
        r == unescaped(chr),
{
    if chr == BACKSLASH {
        Some(BACKSLASH)
    } else if chr == DOUBLE_QUOTE {
        Some(DOUBLE_QUOTE)
    } else if chr == 110 {
        Some(LINE_FEED)
    } else if chr == 114 {
        Some(CARRIAGE_RETURN)
    } else if chr == 116 {
        Some(TAB)
    } else {
        None
    }
}

/// Reads a string literal at `pos`.
pub(crate) fn string_from(input: &[u8], pos: usize) -> (r: Option<(String, usize)>)
    requires
        pos <= input@.len(),
    ensures
        match r {
            Some((text, end)) => string_at(input@, pos as int) == Some((text@, end as int)) && pos
                < end <= input@.len(),
            None => string_at(input@, pos as int) is None,
        },
{
    if !(pos < input.len() && input[pos] == DOUBLE_QUOTE) {
        return None;
    }
    let mut content: Vec<u8> = Vec::new();
    let mut i: usize = pos + 1;
    while i < input.len()
        invariant
            pos < i <= input@.len(),
            input@[pos as int] == DOUBLE_QUOTE,
            string_content_at(input@, pos + 1) == joined(
                content@,
                string_content_at(input@, i as int),
            ),
        decreases input@.len() - i,
    {
        let chr = input[i];
        if chr == DOUBLE_QUOTE {
            assert(content@ + Seq::<u8>::empty() =~= content@);
            return Some((to_s(content), i + 1));
        } else if chr == BACKSLASH {
            if i + 1 >= input.len() {
                return None;
            }
            match unescape(input[i + 1]) {
                Some(byte) => {
                    proof {
                        let rest = string_content_at(input@, i + 2);
                        if let Some((bytes, end)) = rest {
                            assert(content@ + (seq![byte] + bytes) =~= content@.push(byte) + bytes);
                        }
                    }
                    content.push(byte);
                    i += 2;
                },
                None => {
                    return None;
                },
            }
        } else {
            proof {
                let rest = string_content_at(input@, i + 1);
                if let Some((bytes, end)) = rest {
                    assert(content@ + (seq![chr] + bytes) =~= content@.push(chr) + bytes);
                }
            }
            content.push(chr);
            i += 1;
        }
    }
    None
}

/// Reads a character literal at `pos`.
pub(crate) fn character_from(input: &[u8], pos: usize) -> (r: Option<(String, usize)>)
    requires
        pos <= input@.len(),
    ensures
        match r {
            Some((text, end)) => character_at(input@, pos as int) == Some((text@, end as int))
                && pos < end <= input@.len(),
            None => character_at(input@, pos as int) is None,
        },
{
    if input.len() - pos > 2 && input[pos] == SINGLE_QUOTE && input[pos + 2] == SINGLE_QUOTE {
        Some((character_text(input[pos + 1] as char), pos + 3))
    } else {
        None
    }
}

/// Reads a primitive literal at `pos`.
pub(crate) fn primitive_value_from(input: &[u8], pos: usize) -> (r: Option<(PrimitiveData, usize)>)
    requires
        pos <= input@.len(),
    ensures
        match r {
            Some((value, end)) => primitive_at(input@, pos as int) == Some((value@, end as int))
                && pos < end <= input@.len(),
            None => primitive_at(input@, pos as int) is None,
        },
{
    if let Some((value, end)) = integer_decimal_from(input, pos) {
        return Some((PrimitiveData::Int(value), end));
    }
    if let Some((value, end)) = boolean_from(input, pos) {
        return Some((PrimitiveData::Bool(value), end));
    }
    if let Some((text, end)) = string_from(input, pos) {
        return Some((PrimitiveData::String(text), end));
    }
    if let Some((name, end)) = identifier_from(input, pos) {
        return Some((PrimitiveData::Name(name), end));
    }
    None
}

} // verus!
