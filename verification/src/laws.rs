use crate::chars::{spec_is_digit, spec_is_octal_digit, CharClass};
use crate::cursor::{char_at, lemma_run_end, run_end, text};
use crate::dictionary::{lookup_entry, reserved_words};
use crate::error::{ErrorView, LexicalErrorKind};
use crate::grammar::{
    attempt, block_comment_at, comment_close, digits_value, end_of_file_token, exponent_part,
    fraction_part, lemma_attempt, lemma_number_parts, lemma_trivia, line_comment_at,
    line_comment_end, location_at, number_step, operator_entry, scan, spec_number_base, trivia,
    unit_step, unterminated_comment, Scan,
};
use crate::token::{int_token, TokenType};
use vstd::prelude::*;

verus! {

/// A run takes everything up to the end of the source where nothing but characters of its class
/// is left.
pub proof fn lemma_run_to_the_end(src: Seq<u8>, class: CharClass, i: int)
    requires
        0 <= i <= src.len(),
        forall|k: int| i <= k < src.len() ==> class.contains(#[trigger] char_at(src, k)),
    ensures
        run_end(src, class, i) == src.len(),
    decreases src.len() - i,
{
    if i < src.len() {
        assert(class.contains(char_at(src, i)));
        lemma_run_to_the_end(src, class, i + 1);
    }
}

/// No entry of the table is of the category that marks the end of the source.
pub proof fn lemma_no_reserved_end_of_file(name: Seq<char>)
    ensures
        lookup_entry(reserved_words(), name).1 != TokenType::END_OF_FILE,
        operator_entry(name).1 != TokenType::END_OF_FILE,
{
}

/// Only at the end of the source does an attempt give the token that marks the end.
pub proof fn lemma_end_of_file_only_at_the_end(file: Seq<char>, src: Seq<u8>, i: int)
    requires
        0 <= i <= src.len(),
    ensures
        attempt(file, src, i).outcome is Ok && attempt(file, src, i).outcome->Ok_0.category
            == TokenType::END_OF_FILE ==> {
            &&& attempt(file, src, i).outcome->Ok_0 == end_of_file_token(file, src)
            &&& attempt(file, src, i).end == src.len()
        },
{
    let at = trivia(src, i).end;
    let name = attempt(file, src, i).outcome->Ok_0.name;
    lemma_no_reserved_end_of_file(name);
}

/// A request moves forward and stays inside the source. Only the token that marks the end can
/// come without a character being taken; and that token comes only when the end is reached.
pub proof fn lemma_scan_moves_forward(file: Seq<char>, src: Seq<u8>, i: int)
    requires
        0 <= i <= src.len(),
    ensures
        i <= scan(file, src, i).end <= src.len(),
        scan(file, src, i).end == i ==> i == src.len(),
        scan(file, src, i).token.category == TokenType::END_OF_FILE ==> {
            &&& scan(file, src, i).token == end_of_file_token(file, src)
            &&& scan(file, src, i).end == src.len()
        },
    decreases src.len() - i,
{
    let step = attempt(file, src, i);
    lemma_attempt(file, src, i);
    lemma_end_of_file_only_at_the_end(file, src, i);
    if step.outcome is Err {
        lemma_scan_moves_forward(file, src, step.end);
    }
}

/// At the end of the source every request gives the token that marks the end, reports nothing,
/// and leaves the scanner where it is.
pub proof fn lemma_scan_at_the_end(file: Seq<char>, src: Seq<u8>)
    ensures
        scan(file, src, src.len() as int) == (Scan {
            token: end_of_file_token(file, src),
            end: src.len() as int,
            errors: Seq::empty(),
        }),
{
    lemma_run_end(src, CharClass::Whitespace, src.len() as int);
}

/// Once a request has given the token that marks the end of the source, every further request
/// gives the same token again, reports nothing and moves nothing.
pub proof fn lemma_end_of_file_is_final(file: Seq<char>, src: Seq<u8>, i: int)
    requires
        0 <= i <= src.len(),
        scan(file, src, i).token.category == TokenType::END_OF_FILE,
    ensures
        scan(file, src, scan(file, src, i).end) == (Scan {
            token: scan(file, src, i).token,
            end: scan(file, src, i).end,
            errors: Seq::empty(),
        }),
{
    lemma_scan_moves_forward(file, src, i);
    lemma_scan_at_the_end(file, src);
}

/// A source that holds decimal digits and nothing else, and does not start with the mark of
/// the octal base, is one integer literal, whose value is the number that the digits write in
/// base ten. Where that number is greater than `i32::MAX` it is reported and the source gives no
/// token but the one that marks its end. In neither case is there a real literal.
pub proof fn lemma_decimal_digits(file: Seq<char>, src: Seq<u8>)
    requires
        src.len() > 0,
        forall|k: int| 0 <= k < src.len() ==> spec_is_digit(#[trigger] char_at(src, k)),
        !(char_at(src, 0) == '0' && spec_is_octal_digit(char_at(src, 1))),
    ensures
        ({
            let digits = text(src, 0, src.len() as int);
            let value = digits_value(digits, 10);
            let found = scan(file, src, 0);
            &&& found.end == src.len()
            &&& found.token.category != TokenType::REAL_LITERAL
            &&& value <= i32::MAX ==> {
                &&& found.token == int_token(location_at(file, src, 0), digits, value)
                &&& found.errors == Seq::<ErrorView>::empty()
            }
            &&& value > i32::MAX ==> {
                &&& found.token == end_of_file_token(file, src)
                &&& found.errors == seq![
                    ErrorView {
                        kind: LexicalErrorKind::IntegerOutOfRange,
                        location: location_at(file, src, src.len() as int),
                    },
                ]
            }
        }),
{
    let end = src.len() as int;
    assert(spec_is_digit(char_at(src, 0)));
    lemma_run_to_the_end(src, CharClass::Digit, 0);
    lemma_scan_at_the_end(file, src);
    let step = attempt(file, src, 0);
    assert(trivia(src, 0).end == 0);
    assert(step == unit_step(file, src, 0));
    if digits_value(text(src, 0, end), 10) > i32::MAX {
        assert(seq![step.outcome->Err_0] + Seq::<ErrorView>::empty() =~= seq![step.outcome->Err_0]);
    }
}

/// A line comment is passed over: a request that finds one where it starts does what it would
/// do from behind the comment.
pub proof fn lemma_line_comment_is_skipped(file: Seq<char>, src: Seq<u8>, i: int)
    requires
        0 <= i <= src.len(),
        line_comment_at(src, i),
    ensures
        scan(file, src, i) == scan(file, src, line_comment_end(src, i)),
{
    lemma_run_end(src, CharClass::Whitespace, i);
    lemma_run_end(src, CharClass::LineBody, i + 2);
    lemma_trivia(src, i);
    let next = line_comment_end(src, i);
    assert(trivia(src, i) == trivia(src, next));
    lemma_trivia(src, next);
    lemma_attempt(file, src, i);
    lemma_attempt(file, src, next);
}

/// A block comment that is never closed is reported once; it takes the rest of the source, so
/// that the request gives the token that marks the end.
pub proof fn lemma_unterminated_comment(file: Seq<char>, src: Seq<u8>, i: int)
    requires
        0 <= i <= src.len(),
        block_comment_at(src, i),
        comment_close(src, i + 2) >= src.len(),
    ensures
        scan(file, src, i) == (Scan {
            token: end_of_file_token(file, src),
            end: src.len() as int,
            errors: seq![unterminated_comment(file, src)],
        }),
{
    lemma_run_end(src, CharClass::Whitespace, i);
    lemma_scan_at_the_end(file, src);
    assert(seq![unterminated_comment(file, src)] + Seq::<ErrorView>::empty() =~= seq![
        unterminated_comment(file, src),
    ]);
}

/// Whether `s` is one decimal digit or more, and nothing else.
pub open spec fn is_digits(s: Seq<char>) -> bool {
    s.len() > 0 && forall|k: int| 0 <= k < s.len() ==> spec_is_digit(#[trigger] s[k])
}

/// Whether `s` is a fraction: a dot and digits behind it.
pub open spec fn is_fraction(s: Seq<char>) -> bool {
    s.len() > 0 && s[0] == '.' && is_digits(s.subrange(1, s.len() as int))
}

/// Whether `s` is an exponent: `e` or `E`, then digits, with or without a sign in front of them.
pub open spec fn is_exponent(s: Seq<char>) -> bool {
    &&& s.len() > 1
    &&& s[0] == 'e' || s[0] == 'E'
    &&& if s[1] == '+' || s[1] == '-' {
        is_digits(s.subrange(2, s.len() as int))
    } else {
        is_digits(s.subrange(1, s.len() as int))
    }
}

/// Whether `s` is digits up to index `a`, then a fraction up to index `b` or none, then an
/// exponent or none, and more than digits alone.
pub open spec fn splits_as_real(s: Seq<char>, a: int, b: int) -> bool {
    &&& 0 < a <= b <= s.len()
    &&& a < s.len()
    &&& is_digits(s.subrange(0, a))
    &&& a == b || is_fraction(s.subrange(a, b))
    &&& b == s.len() || is_exponent(s.subrange(b, s.len() as int))
}

/// Whether `s` is written as a real number in decimal notation: digits, then a fraction, an
/// exponent, or a fraction and an exponent.
pub open spec fn is_real_text(s: Seq<char>) -> bool {
    exists|a: int, b: int| splits_as_real(s, a, b)
}

/// No entry of the table is a real literal.
pub proof fn lemma_no_reserved_real(name: Seq<char>)
    ensures
        lookup_entry(reserved_words(), name).1 != TokenType::REAL_LITERAL,
        operator_entry(name).1 != TokenType::REAL_LITERAL,
{
}

/// The text of a run of digits, of base eight or ten, is decimal digits.
proof fn lemma_digit_run_text(src: Seq<u8>, class: CharClass, i: int)
    requires
        0 <= i <= src.len(),
        class == CharClass::Digit || class == CharClass::OctalDigit,
        i < run_end(src, class, i),
    ensures
        is_digits(text(src, i, run_end(src, class, i))),
{
    lemma_run_end(src, class, i);
    let run = text(src, i, run_end(src, class, i));
    assert forall|k: int| 0 <= k < run.len() implies spec_is_digit(#[trigger] run[k]) by {
        assert(class.contains(char_at(src, i + k)));
    }
}

/// The token of a number that is a real literal has the text of a real number.
proof fn lemma_real_number_text(file: Seq<char>, src: Seq<u8>, i: int)
    requires
        0 <= i < src.len(),
        spec_is_digit(char_at(src, i)),
        number_step(file, src, i).outcome is Ok,
        number_step(file, src, i).outcome->Ok_0.category == TokenType::REAL_LITERAL,
    ensures
        is_real_text(number_step(file, src, i).outcome->Ok_0.name),
{
    let base = spec_number_base(char_at(src, i), char_at(src, i + 1));
    let first = i + base.prefix_len();
    let int_end = run_end(src, base.digits(), first);
    let fraction = fraction_part(src, base, int_end);
    let exponent = exponent_part(src, fraction.present, fraction.end);
    let end = exponent.end;
    let name = text(src, first, end);
    lemma_run_end(src, base.digits(), first);
    lemma_number_parts(src, base, false, int_end);
    lemma_number_parts(src, base, fraction.present, fraction.end);
    lemma_digit_run_text(src, base.digits(), first);
    let a = int_end - first;
    let b = fraction.end - first;
    assert(name.subrange(0, a) =~= text(src, first, int_end));
    if fraction.present {
        let part = name.subrange(a, b);
        assert(spec_is_digit(char_at(src, int_end + 1)));
        lemma_run_end(src, CharClass::Digit, int_end + 2);
        assert(int_end + 1 < run_end(src, CharClass::Digit, int_end + 1));
        lemma_digit_run_text(src, CharClass::Digit, int_end + 1);
        assert(part =~= text(src, int_end, fraction.end));
        assert(part.subrange(1, part.len() as int) =~= text(src, int_end + 1, fraction.end));
        assert(part[0] == char_at(src, int_end));
        assert(is_fraction(part));
    }
    if exponent.present {
        let at = fraction.end;
        let part = name.subrange(b, name.len() as int);
        let sign = char_at(src, at + 1);
        let digits = if sign == '+' || sign == '-' {
            at + 2
        } else {
            at + 1
        };
        assert(spec_is_digit(char_at(src, digits)));
        lemma_run_end(src, CharClass::Digit, digits + 1);
        assert(digits < run_end(src, CharClass::Digit, digits));
        assert(end == run_end(src, CharClass::Digit, digits));
        lemma_digit_run_text(src, CharClass::Digit, digits);
        assert(part =~= text(src, at, end));
        assert(part[0] == char_at(src, at));
        assert(part[1] == sign);
        assert(part.subrange(digits - at, part.len() as int) =~= text(src, digits, end));
        assert(is_exponent(part));
    }
    assert(splits_as_real(name, a, b));
}

/// The text of every real literal is written as a real number in decimal notation: it is of the
/// form that the value of the token is read from.
pub proof fn lemma_real_literal_text(file: Seq<char>, src: Seq<u8>, i: int)
    requires
        0 <= i <= src.len(),
        scan(file, src, i).token.category == TokenType::REAL_LITERAL,
    ensures
        is_real_text(scan(file, src, i).token.name),
    decreases src.len() - i,
{
    let step = attempt(file, src, i);
    lemma_attempt(file, src, i);
    lemma_trivia(src, i);
    if step.outcome is Err {
        lemma_real_literal_text(file, src, step.end);
    } else {
        let at = trivia(src, i).end;
        lemma_no_reserved_real(step.outcome->Ok_0.name);
        if spec_is_digit(char_at(src, at)) && at < src.len() {
            lemma_real_number_text(file, src, at);
        }
    }
}

} // verus!
