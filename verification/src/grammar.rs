use crate::chars::{
    is_alphabetic, is_digit, is_octal_digit, spec_is_alphabetic, spec_is_digit,
    spec_is_octal_digit, CharClass,
};
use crate::cursor::{char_at, column_at, lemma_run_end, line_at, run_end, text};
use crate::dictionary::{lookup_entry, reserved_words};
use crate::error::{ErrorView, LexicalErrorKind};
use crate::token::{
    char_token, int_token, plain_token, real_token, str_token, LocationView, TokenType,
    TokenValue, TokenView,
};
use vstd::prelude::*;

verus! {

/// The location of the scanner when the character at index `i` is the current one.
pub open spec fn location_at(file: Seq<char>, src: Seq<u8>, i: int) -> LocationView {
    LocationView { file_name: file, line: line_at(src, i), column: column_at(src, i) }
}

/// What one attempt to read a token comes to: the index where the scanner stands afterwards, and
/// either the token or the error that it found.
pub struct Step {
    pub end: int,
    pub outcome: Result<TokenView, ErrorView>,
}

/// The attempt gave `token`, and the scanner stands at `end`.
pub open spec fn accept(end: int, token: TokenView) -> Step {
    Step { end, outcome: Ok(token) }
}

/// The attempt failed at `end` with an error of the given kind; the scanner stays there.
pub open spec fn reject(file: Seq<char>, src: Seq<u8>, end: int, kind: LexicalErrorKind) -> Step {
    Step { end, outcome: Err(ErrorView { kind, location: location_at(file, src, end) }) }
}

// ---------------------------------------------------------------------------------------------
// Blanks and comments
// ---------------------------------------------------------------------------------------------
/// Whether `//` stands at index `i`.
pub open spec fn line_comment_at(src: Seq<u8>, i: int) -> bool {
    char_at(src, i) == '/' && char_at(src, i + 1) == '/'
}

/// Whether `/*` stands at index `i`.
pub open spec fn block_comment_at(src: Seq<u8>, i: int) -> bool {
    char_at(src, i) == '/' && char_at(src, i + 1) == '*'
}

/// Where the line comment that starts at index `i` ends: behind the next line feed, or at the
/// end of the source.
pub open spec fn line_comment_end(src: Seq<u8>, i: int) -> int {
    let feed = run_end(src, CharClass::LineBody, i + 2);
    if feed < src.len() {
        feed + 1
    } else {
        feed
    }
}

/// The index of the first `*/` from index `i` on, or the length of the source if there is none.
pub open spec fn comment_close(src: Seq<u8>, i: int) -> int
    decreases src.len() - i,
{
    if i < 0 || i >= src.len() {
        src.len() as int
    } else if char_at(src, i) == '*' && char_at(src, i + 1) == '/' {
        i
    } else {
        comment_close(src, i + 1)
    }
}

/// What skipping blanks and comments comes to: the index of the first character that is neither,
/// and whether the source ended inside a block comment.
pub struct Trivia {
    pub end: int,
    pub unterminated: bool,
}

/// Skips, from index `i` on, blanks, line comments and block comments, in any order and number.
/// A block comment that is never closed takes the rest of the source.
pub open spec fn trivia(src: Seq<u8>, i: int) -> Trivia
    decreases src.len() - i,
    via trivia_decreases
{
    let j = run_end(src, CharClass::Whitespace, i);
    if line_comment_at(src, j) {
        trivia(src, line_comment_end(src, j))
    } else if block_comment_at(src, j) {
        let close = comment_close(src, j + 2);
        if close < src.len() {
            trivia(src, close + 2)
        } else {
            Trivia { end: src.len() as int, unterminated: true }
        }
    } else {
        Trivia { end: j, unterminated: false }
    }
}

/// `comment_close` looks forward, and what it finds is a `*/` inside the source.
pub proof fn lemma_comment_close(src: Seq<u8>, i: int)
    requires
        0 <= i,
    ensures
        i <= comment_close(src, i) || comment_close(src, i) == src.len(),
        comment_close(src, i) <= src.len(),
        comment_close(src, i) < src.len() ==> {
            &&& char_at(src, comment_close(src, i)) == '*'
            &&& char_at(src, comment_close(src, i) + 1) == '/'
            &&& comment_close(src, i) + 2 <= src.len()
        },
    decreases src.len() - i,
{
    if i < src.len() && !(char_at(src, i) == '*' && char_at(src, i + 1) == '/') {
        lemma_comment_close(src, i + 1);
    }
}

#[via_fn]
proof fn trivia_decreases(src: Seq<u8>, i: int) {
    lemma_trivia_moves(src, i);
}

proof fn lemma_trivia_moves(src: Seq<u8>, i: int)
    ensures
        ({
            let j = run_end(src, CharClass::Whitespace, i);
            &&& line_comment_at(src, j) ==> i < line_comment_end(src, j) <= src.len()
            &&& block_comment_at(src, j) && comment_close(src, j + 2) < src.len() ==> i
                < comment_close(src, j + 2) + 2 <= src.len()
        }),
{
    let j = run_end(src, CharClass::Whitespace, i);
    if 0 <= i <= src.len() {
        lemma_run_end(src, CharClass::Whitespace, i);
        if line_comment_at(src, j) {
            lemma_run_end(src, CharClass::LineBody, j + 2);
        }
        if block_comment_at(src, j) {
            lemma_comment_close(src, j + 2);
        }
    }
}

/// Skipping moves forward and stays inside the source; where it stops short of the end, no
/// comment was left open and the character there starts a token.
pub proof fn lemma_trivia(src: Seq<u8>, i: int)
    requires
        0 <= i <= src.len(),
    ensures
        i <= trivia(src, i).end <= src.len(),
        trivia(src, i).unterminated ==> trivia(src, i).end == src.len(),
        trivia(src, i).end < src.len() ==> {
            let end = trivia(src, i).end;
            &&& !CharClass::Whitespace.contains(char_at(src, end))
            &&& !line_comment_at(src, end)
            &&& !block_comment_at(src, end)
        },
    decreases src.len() - i,
{
    let j = run_end(src, CharClass::Whitespace, i);
    lemma_run_end(src, CharClass::Whitespace, i);
    lemma_trivia_moves(src, i);
    if line_comment_at(src, j) {
        lemma_run_end(src, CharClass::LineBody, j + 2);
        lemma_trivia(src, line_comment_end(src, j));
    } else if block_comment_at(src, j) {
        lemma_comment_close(src, j + 2);
        if comment_close(src, j + 2) < src.len() {
            lemma_trivia(src, comment_close(src, j + 2) + 2);
        }
    }
}

// ---------------------------------------------------------------------------------------------
// Identifiers and reserved words
// ---------------------------------------------------------------------------------------------
/// What has to follow `System` to make the one reserved word that holds dots.
pub open spec fn print_suffix() -> Seq<char> {
    ".out.println"@
}

/// Where the identifier that starts at index `i` ends. It runs over letters, digits and
/// underscores; `System` takes `.out.println` with it where that follows at once.
pub open spec fn identifier_end(src: Seq<u8>, i: int) -> int {
    let word_end = run_end(src, CharClass::Word, i + 1);
    if text(src, i, word_end) == "System"@ && word_end + print_suffix().len() <= src.len() && text(
        src,
        word_end,
        word_end + print_suffix().len(),
    ) == print_suffix() {
        word_end + print_suffix().len()
    } else {
        word_end
    }
}

/// An identifier or a reserved word, whichever the table says its text is.
pub open spec fn identifier_step(file: Seq<char>, src: Seq<u8>, i: int) -> Step {
    let end = identifier_end(src, i);
    let name = text(src, i, end);
    let entry = lookup_entry(reserved_words(), name);
    accept(end, plain_token(entry.1, entry.0, location_at(file, src, i), name, entry.2 as int))
}

// ---------------------------------------------------------------------------------------------
// Numbers
// ---------------------------------------------------------------------------------------------
/// The base in which an integer literal is written.
#[derive(Clone, Copy, Debug, PartialEq, Eq, Structural)]
pub enum NumberBase {
    Decimal,
    /// After `0x` or `0X`.
    Hexadecimal,
    /// After a `0` that an octal digit follows.
    Octal,
}

impl NumberBase {
    pub open spec fn spec_radix(self) -> u32 {
        match self {
            NumberBase::Decimal => 10u32,
            NumberBase::Hexadecimal => 16u32,
            NumberBase::Octal => 8u32,
        }
    }

    /// How many characters mark the base, in front of the digits.
    pub open spec fn spec_prefix_len(self) -> usize {
        match self {
            NumberBase::Decimal => 0usize,
            NumberBase::Hexadecimal => 2usize,
            NumberBase::Octal => 1usize,
        }
    }

    /// The digits of the base.
    pub open spec fn spec_digits(self) -> CharClass {
        match self {
            NumberBase::Decimal => CharClass::Digit,
            NumberBase::Hexadecimal => CharClass::HexDigit,
            NumberBase::Octal => CharClass::OctalDigit,
        }
    }

    #[verifier::when_used_as_spec(spec_radix)]
    pub fn radix(self) -> (r: u32)
        ensures
            r == self.spec_radix(),
    {
        match self {
            NumberBase::Decimal => 10,
            NumberBase::Hexadecimal => 16,
            NumberBase::Octal => 8,
        }
    }

    #[verifier::when_used_as_spec(spec_prefix_len)]
    pub fn prefix_len(self) -> (r: usize)
        ensures
            r == self.spec_prefix_len(),
    {
        match self {
            NumberBase::Decimal => 0,
            NumberBase::Hexadecimal => 2,
            NumberBase::Octal => 1,
        }
    }

    #[verifier::when_used_as_spec(spec_digits)]
    pub fn digits(self) -> (r: CharClass)
        ensures
            r == self.spec_digits(),
    {
        match self {
            NumberBase::Decimal => CharClass::Digit,
            NumberBase::Hexadecimal => CharClass::HexDigit,
            NumberBase::Octal => CharClass::OctalDigit,
        }
    }
}

/// The base of the number that starts with `current` and goes on with `next`: sixteen behind
/// `0x` or `0X`, eight where an octal digit follows a `0`, ten otherwise.
pub open spec fn spec_number_base(current: char, next: char) -> NumberBase {
    if current == '0' && (next == 'x' || next == 'X') {
        NumberBase::Hexadecimal
    } else if current == '0' && spec_is_octal_digit(next) {
        NumberBase::Octal
    } else {
        NumberBase::Decimal
    }
}

/// The base of a number, told by its first character and the one behind it.
#[verifier::when_used_as_spec(spec_number_base)]
pub fn number_base(current: char, next: char) -> (base: NumberBase)
    ensures
        base == spec_number_base(current, next),
{
    if current == '0' && (next == 'x' || next == 'X') {
        NumberBase::Hexadecimal
    } else if current == '0' && is_octal_digit(next) {
        NumberBase::Octal
    } else {
        NumberBase::Decimal
    }
}

/// The value of one digit; letters count from ten, in either case.
pub open spec fn digit_value(c: char) -> int {
    if '0' <= c && c <= '9' {
        c as int - 48
    } else if 'a' <= c && c <= 'f' {
        c as int - 87
    } else if 'A' <= c && c <= 'F' {
        c as int - 55
    } else {
        0
    }
}

/// The number that `digits` write in base `radix`, the most significant digit first.
pub open spec fn digits_value(digits: Seq<char>, radix: int) -> int
    decreases digits.len(),
{
    if digits.len() == 0 {
        0
    } else {
        digits_value(digits.drop_last(), radix) * radix + digit_value(digits.last())
    }
}

/// A part that may follow the integer part of a number, the fraction or the exponent: where it
/// ends, whether it is there at all, and what is wrong with it, if anything. Where something is
/// wrong, `end` is the index of the offending character.
pub struct Part {
    pub end: int,
    pub present: bool,
    pub error: Option<LexicalErrorKind>,
}

/// The fraction, if any, behind the integer part that ends at index `at`: a dot and at least one
/// digit. Only a decimal number can have one.
pub open spec fn fraction_part(src: Seq<u8>, base: NumberBase, at: int) -> Part {
    if char_at(src, at) != '.' {
        Part { end: at, present: false, error: None }
    } else if base == NumberBase::Hexadecimal {
        Part { end: at, present: false, error: Some(LexicalErrorKind::DotAfterHex) }
    } else if base == NumberBase::Octal {
        Part { end: at, present: false, error: Some(LexicalErrorKind::DotAfterOctal) }
    } else if !spec_is_digit(char_at(src, at + 1)) {
        Part { end: at + 1, present: false, error: Some(LexicalErrorKind::FractionDigitsMissing) }
    } else {
        Part { end: run_end(src, CharClass::Digit, at + 1), present: true, error: None }
    }
}

/// The exponent, if any, at index `at`, behind the integer part or the fraction: `e` or `E`, an
/// optional sign, and at least one digit. Neither a dot nor another exponent may follow, and no
/// dot may follow a fraction.
pub open spec fn exponent_part(src: Seq<u8>, fraction: bool, at: int) -> Part {
    let c = char_at(src, at);
    if c == '.' {
        Part { end: at, present: false, error: Some(LexicalErrorKind::SecondDot) }
    } else if c == 'e' || c == 'E' {
        let sign = char_at(src, at + 1);
        let digits = if sign == '+' || sign == '-' {
            at + 2
        } else {
            at + 1
        };
        let end = run_end(src, CharClass::Digit, digits);
        if !(sign == '+' || sign == '-' || spec_is_digit(sign)) {
            Part { end: at + 1, present: false, error: Some(LexicalErrorKind::ExponentMalformed) }
        } else if !spec_is_digit(char_at(src, digits)) {
            Part {
                end: digits,
                present: false,
                error: Some(LexicalErrorKind::ExponentDigitsMissing),
            }
        } else if char_at(src, end) == '.' {
            Part {
                end,
                present: false,
                error: Some(
                    if fraction {
                        LexicalErrorKind::SecondDot
                    } else {
                        LexicalErrorKind::DotAfterExponent
                    },
                ),
            }
        } else if char_at(src, end) == 'e' || char_at(src, end) == 'E' {
            Part { end, present: false, error: Some(LexicalErrorKind::SecondExponent) }
        } else {
            Part { end, present: true, error: None }
        }
    } else {
        Part { end: at, present: false, error: None }
    }
}

/// A number. Its base is told by its first characters; the integer part is a run of digits of
/// that base. With a fraction or an exponent it is a real literal, whose text says its value;
/// without, it is an integer literal, if its value fits `i32`. The mark of the base is no part of
/// the token's text.
pub open spec fn number_step(file: Seq<char>, src: Seq<u8>, i: int) -> Step {
    let base = spec_number_base(char_at(src, i), char_at(src, i + 1));
    let first = i + base.prefix_len();
    let int_end = run_end(src, base.digits(), first);
    let fraction = fraction_part(src, base, int_end);
    let exponent = exponent_part(src, fraction.present, fraction.end);
    let value = digits_value(text(src, first, int_end), base.radix() as int);
    let location = location_at(file, src, i);
    if int_end == first {
        reject(file, src, first, LexicalErrorKind::HexDigitsMissing)
    } else if fraction.error is Some {
        reject(file, src, fraction.end, fraction.error->0)
    } else if exponent.error is Some {
        reject(file, src, exponent.end, exponent.error->0)
    } else if fraction.present || exponent.present {
        accept(exponent.end, real_token(location, text(src, first, exponent.end)))
    } else if value <= i32::MAX {
        accept(int_end, int_token(location, text(src, first, int_end), value))
    } else {
        reject(file, src, int_end, LexicalErrorKind::IntegerOutOfRange)
    }
}

// ---------------------------------------------------------------------------------------------
// Character and string literals
// ---------------------------------------------------------------------------------------------
/// The index of the last character of the literal whose text starts at index `i`: the first
/// character from `i` on that is no backslash and has `quote` right behind it. The length of the
/// source if there is none. No escape sequence is read: a backslash only keeps the quote behind
/// it from closing the literal.
pub open spec fn literal_close(src: Seq<u8>, quote: char, i: int) -> int
    decreases src.len() - i,
{
    if i < 0 || i >= src.len() {
        src.len() as int
    } else if char_at(src, i) != '\\' && char_at(src, i + 1) == quote {
        i
    } else {
        literal_close(src, quote, i + 1)
    }
}

/// `literal_close` looks forward, and what it finds has the quote behind it, inside the source.
pub proof fn lemma_literal_close(src: Seq<u8>, quote: char, i: int)
    requires
        0 <= i,
        quote != crate::chars::END_OF_INPUT,
    ensures
        i <= literal_close(src, quote, i) || literal_close(src, quote, i) == src.len(),
        literal_close(src, quote, i) <= src.len(),
        literal_close(src, quote, i) < src.len() ==> {
            &&& char_at(src, literal_close(src, quote, i)) != '\\'
            &&& char_at(src, literal_close(src, quote, i) + 1) == quote
            &&& literal_close(src, quote, i) + 2 <= src.len()
        },
    decreases src.len() - i,
{
    if i < src.len() && !(char_at(src, i) != '\\' && char_at(src, i + 1) == quote) {
        lemma_literal_close(src, quote, i + 1);
    }
}

/// A character literal: between the quotes it holds exactly one character.
pub open spec fn char_step(file: Seq<char>, src: Seq<u8>, i: int) -> Step {
    let last = literal_close(src, '\'', i + 1);
    if last >= src.len() {
        reject(file, src, src.len() as int, LexicalErrorKind::UnterminatedChar)
    } else if last != i + 1 {
        reject(file, src, last + 2, LexicalErrorKind::CharLength)
    } else {
        accept(
            i + 3,
            char_token(location_at(file, src, i), text(src, i + 1, i + 2), char_at(src, i + 1)),
        )
    }
}

/// A string literal: its value is the text between the quotes.
pub open spec fn string_step(file: Seq<char>, src: Seq<u8>, i: int) -> Step {
    let last = literal_close(src, '"', i + 1);
    if last >= src.len() {
        reject(file, src, src.len() as int, LexicalErrorKind::UnterminatedString)
    } else {
        accept(
            last + 2,
            str_token(
                location_at(file, src, i),
                text(src, i + 1, last + 1),
                text(src, i + 1, last + 1),
            ),
        )
    }
}

// ---------------------------------------------------------------------------------------------
// Operators and delimiters
// ---------------------------------------------------------------------------------------------
/// Where the operator or delimiter at index `i` ends: it takes two characters where the table
/// holds the two together, and one otherwise.
pub open spec fn operator_end(src: Seq<u8>, i: int) -> int {
    if i + 2 <= src.len() && reserved_words().contains_key(text(src, i, i + 2)) {
        i + 2
    } else {
        i + 1
    }
}

/// What the table says of the text of an operator or delimiter; text that it does not hold is of
/// unknown category.
pub open spec fn operator_entry(name: Seq<char>) -> (TokenValue, TokenType, i32) {
    if reserved_words().contains_key(name) {
        reserved_words()[name]
    } else {
        (TokenValue::UNRESERVED, TokenType::UNKNOWN, -1i32)
    }
}

/// An operator, a delimiter, or a token of unknown category.
pub open spec fn operator_step(file: Seq<char>, src: Seq<u8>, i: int) -> Step {
    let end = operator_end(src, i);
    let name = text(src, i, end);
    let entry = operator_entry(name);
    accept(end, plain_token(entry.1, entry.0, location_at(file, src, i), name, entry.2 as int))
}

// ---------------------------------------------------------------------------------------------
// The state machine
// ---------------------------------------------------------------------------------------------
/// The state of the scanner.
#[allow(non_camel_case_types)]
#[derive(Clone, Copy, Debug, PartialEq, Eq, Structural)]
pub enum State {
    /// No token is being read.
    START,
    /// The end of the source was reached.
    END_OF_FILE,
    /// An identifier or a reserved word is being read.
    IDENTIFIER,
    /// An integer or a real literal is being read.
    NUMBER,
    /// A character literal is being read.
    CHAR_LITERAL,
    /// A string literal is being read.
    STRING_LITERAL,
    /// An operator or a delimiter is being read.
    OPERATOR,
}

/// The state that the scanner enters from `START`, told by the first character that is neither
/// a blank nor part of a comment, and by whether the source has ended.
pub open spec fn spec_classify(current: char, eof: bool) -> State {
    if eof {
        State::END_OF_FILE
    } else if spec_is_alphabetic(current) {
        State::IDENTIFIER
    } else if spec_is_digit(current) {
        State::NUMBER
    } else if current == '\'' {
        State::CHAR_LITERAL
    } else if current == '"' {
        State::STRING_LITERAL
    } else {
        State::OPERATOR
    }
}

/// The state that the scanner enters from `START`.
#[verifier::when_used_as_spec(spec_classify)]
pub fn classify(current: char, eof: bool) -> (state: State)
    ensures
        state == spec_classify(current, eof),
{
    if eof {
        State::END_OF_FILE
    } else if is_alphabetic(current) {
        State::IDENTIFIER
    } else if is_digit(current) {
        State::NUMBER
    } else if current == '\'' {
        State::CHAR_LITERAL
    } else if current == '"' {
        State::STRING_LITERAL
    } else {
        State::OPERATOR
    }
}

/// One attempt to read a token that starts at index `i`, inside the source.
pub open spec fn unit_step(file: Seq<char>, src: Seq<u8>, i: int) -> Step {
    match spec_classify(char_at(src, i), false) {
        State::IDENTIFIER => identifier_step(file, src, i),
        State::NUMBER => number_step(file, src, i),
        State::CHAR_LITERAL => char_step(file, src, i),
        State::STRING_LITERAL => string_step(file, src, i),
        _ => operator_step(file, src, i),
    }
}

/// The token that marks the end of the source.
pub open spec fn end_of_file_token(file: Seq<char>, src: Seq<u8>) -> TokenView {
    plain_token(
        TokenType::END_OF_FILE,
        TokenValue::UNRESERVED,
        location_at(file, src, src.len() as int),
        "END_OF_FILE"@,
        -1,
    )
}

/// The error that tells of a block comment left open.
pub open spec fn unterminated_comment(file: Seq<char>, src: Seq<u8>) -> ErrorView {
    ErrorView {
        kind: LexicalErrorKind::UnterminatedComment,
        location: location_at(file, src, src.len() as int),
    }
}

/// One attempt to read a token, from index `i` on: blanks and comments are skipped, then a
/// token is read. A block comment left open is the error of the attempt; where nothing but
/// blanks and comments is left, its token marks the end of the source.
pub open spec fn attempt(file: Seq<char>, src: Seq<u8>, i: int) -> Step {
    let skipped = trivia(src, i);
    if skipped.unterminated {
        reject(file, src, src.len() as int, LexicalErrorKind::UnterminatedComment)
    } else if skipped.end >= src.len() {
        accept(src.len() as int, end_of_file_token(file, src))
    } else {
        unit_step(file, src, skipped.end)
    }
}

/// What a request for the next token comes to: the token, the index where the scanner stands
/// afterwards, and the errors that it reported on the way, in their order.
pub struct Scan {
    pub token: TokenView,
    pub end: int,
    pub errors: Seq<ErrorView>,
}

/// The next token from index `i` on. Attempts are made until one gives a token; each of the
/// others reports its error, once, and the next attempt starts where it stopped.
pub open spec fn scan(file: Seq<char>, src: Seq<u8>, i: int) -> Scan
    decreases src.len() - i,
    via scan_decreases
{
    let step = attempt(file, src, i);
    match step.outcome {
        Ok(token) => Scan { token, end: step.end, errors: Seq::empty() },
        Err(error) => {
            if 0 <= i <= src.len() {
                let rest = scan(file, src, step.end);
                Scan { token: rest.token, end: rest.end, errors: seq![error] + rest.errors }
            } else {
                Scan {
                    token: end_of_file_token(file, src),
                    end: src.len() as int,
                    errors: seq![error],
                }
            }
        },
    }
}

#[via_fn]
proof fn scan_decreases(file: Seq<char>, src: Seq<u8>, i: int) {
    if 0 <= i <= src.len() {
        lemma_attempt(file, src, i);
    }
}

/// An attempt moves forward and stays inside the source. One that fails has taken at least one
/// character; one that stays where it started has found the end of the source.
pub proof fn lemma_attempt(file: Seq<char>, src: Seq<u8>, i: int)
    requires
        0 <= i <= src.len(),
    ensures
        i <= attempt(file, src, i).end <= src.len(),
        attempt(file, src, i).outcome is Err ==> i < attempt(file, src, i).end,
        attempt(file, src, i).end == i ==> i == src.len(),
{
    lemma_trivia(src, i);
    if trivia(src, i).end < src.len() {
        lemma_unit_step(file, src, trivia(src, i).end);
    }
}

/// Every attempt takes at least one character, and none reaches beyond the source.
pub proof fn lemma_unit_step(file: Seq<char>, src: Seq<u8>, i: int)
    requires
        0 <= i < src.len(),
    ensures
        i < unit_step(file, src, i).end <= src.len(),
{
    match spec_classify(char_at(src, i), false) {
        State::IDENTIFIER => {
            lemma_run_end(src, CharClass::Word, i + 1);
        },
        State::NUMBER => {
            lemma_number_step(file, src, i);
        },
        State::CHAR_LITERAL => {
            lemma_literal_close(src, '\'', i + 1);
        },
        State::STRING_LITERAL => {
            lemma_literal_close(src, '"', i + 1);
        },
        _ => {},
    }
}

/// The fraction and the exponent lie behind the place where they are looked for, inside the
/// source.
pub proof fn lemma_number_parts(src: Seq<u8>, base: NumberBase, fraction: bool, at: int)
    requires
        0 <= at <= src.len(),
    ensures
        at <= fraction_part(src, base, at).end <= src.len(),
        at <= exponent_part(src, fraction, at).end <= src.len(),
{
    if char_at(src, at) == '.' {
        lemma_run_end(src, CharClass::Digit, at + 1);
    }
    let c = char_at(src, at);
    if c == 'e' || c == 'E' {
        let sign = char_at(src, at + 1);
        let digits = if sign == '+' || sign == '-' {
            at + 2
        } else {
            at + 1
        };
        lemma_run_end(src, CharClass::Digit, digits);
    }
}

proof fn lemma_number_step(file: Seq<char>, src: Seq<u8>, i: int)
    requires
        0 <= i < src.len(),
        spec_is_digit(char_at(src, i)),
    ensures
        i < number_step(file, src, i).end <= src.len(),
{
    let base = spec_number_base(char_at(src, i), char_at(src, i + 1));
    let first = i + base.prefix_len();
    let int_end = run_end(src, base.digits(), first);
    lemma_run_end(src, base.digits(), first);
    let fraction = fraction_part(src, base, int_end);
    if char_at(src, int_end) == '.' {
        lemma_run_end(src, CharClass::Digit, int_end + 1);
    }
    let at = fraction.end;
    let c = char_at(src, at);
    if fraction.error is None && (c == 'e' || c == 'E') {
        let sign = char_at(src, at + 1);
        let digits = if sign == '+' || sign == '-' {
            at + 2
        } else {
            at + 1
        };
        if digits <= src.len() {
            lemma_run_end(src, CharClass::Digit, digits);
        }
    }
}

} // verus!
