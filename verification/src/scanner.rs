use crate::chars::{is_digit, CharClass};
use crate::cursor::{char_at, lemma_run_end, run_end, Cursor, MAX_SOURCE_LEN};
use crate::dictionary::{reserved_words, Dictionary};
use crate::error::{ErrorView, LexicalError, LexicalErrorKind};
use crate::grammar::{
    accept, attempt, block_comment_at, char_step, classify, comment_close, end_of_file_token,
    exponent_part, fraction_part, identifier_step, lemma_attempt, lemma_comment_close,
    lemma_literal_close, lemma_number_parts, lemma_trivia, line_comment_at, line_comment_end,
    literal_close, location_at, number_base, number_step, operator_step, reject, scan,
    string_step, trivia, NumberBase, State, Step,
};
use crate::number::parse_digits;
use crate::token::{
    char_token, default_token, int_token, plain_token, real_token, str_token, Token,
    TokenLocation, TokenType, TokenValue, TokenView,
};
use vstd::prelude::*;

verus! {

/// The errors of a list as mathematical values.
pub open spec fn error_views(errors: Seq<LexicalError>) -> Seq<ErrorView> {
    errors.map_values(|error: LexicalError| error@)
}

/// Lexical scanner
pub struct Scanner {
    file_name_: String,
    cursor_: Cursor,
    state_: State,
    token_: Token,
    dictionary_: Dictionary,
    errors_: Vec<LexicalError>,
    error_flag_: bool,
}

impl Scanner {
    /// The name of the source, which every location carries.
    pub closed spec fn file_name(&self) -> Seq<char> {
        self.file_name_@
    }

    /// The bytes of the source.
    pub closed spec fn source(&self) -> Seq<u8> {
        self.cursor_.source()
    }

    /// The index of the first character that no token has taken yet; the length of the source
    /// once it has ended.
    pub closed spec fn position(&self) -> int {
        self.cursor_.index()
    }

    /// The token produced last.
    pub closed spec fn token(&self) -> TokenView {
        self.token_@
    }

    /// The errors reported and not taken yet, in their order.
    pub closed spec fn errors(&self) -> Seq<ErrorView> {
        error_views(self.errors_@)
    }

    /// What holds of a scanner whatever its state.
    spec fn inv(&self) -> bool {
        &&& self.cursor_.wf()
        &&& 0 <= self.cursor_.index() <= self.cursor_.source().len() <= MAX_SOURCE_LEN
        &&& self.dictionary_@ == reserved_words()
    }

    /// What holds of a scanner between two requests: it is in `START`, or it has reached the end
    /// of the source and holds the token that says so.
    pub closed spec fn wf(&self) -> bool {
        &&& self.inv()
        &&& self.state_ == State::START || self.state_ == State::END_OF_FILE
        &&& self.state_ == State::END_OF_FILE ==> {
            &&& self.cursor_.index() == self.cursor_.source().len()
            &&& self.token_@ == end_of_file_token(self.file_name_@, self.cursor_.source())
        }
    }

    /// The scanner has made `step` from where `before` stood: it is between two requests again,
    /// stands where the step ends, and holds its token or has reported its error.
    spec fn stepped(&self, before: Scanner, step: Step) -> bool {
        &&& self.wf()
        &&& self.file_name_@ == before.file_name_@
        &&& self.cursor_.source() == before.cursor_.source()
        &&& self.cursor_.index() == step.end
        &&& match step.outcome {
            Ok(token) => {
                &&& !self.error_flag_
                &&& self.token_@ == token
                &&& error_views(self.errors_@) == error_views(before.errors_@)
            },
            Err(error) => {
                &&& self.error_flag_
                &&& error_views(self.errors_@) == error_views(before.errors_@).push(error)
            },
        }
    }

    /// The scanner has moved to index `end` and changed nothing else.
    spec fn moved(&self, before: Scanner, end: int) -> bool {
        &&& self.inv()
        &&& self.file_name_@ == before.file_name_@
        &&& self.cursor_.source() == before.cursor_.source()
        &&& self.cursor_.index() == end
        &&& self.token_@ == before.token_@
        &&& self.errors_@ == before.errors_@
        &&& self.error_flag_ == before.error_flag_
        &&& self.state_ == before.state_
    }

    /// A scanner at the start of `source`, the content of the file named `file_name`.
    pub fn new(file_name: String, source: Vec<u8>) -> (scanner: Self)
        requires
            source@.len() <= MAX_SOURCE_LEN,
        ensures
            scanner.wf(),
            scanner.file_name() == file_name@,
            scanner.source() == source@,
            scanner.position() == 0,
            scanner.token() == default_token(),
            scanner.errors() == Seq::<ErrorView>::empty(),
    {
        let mut cursor = Cursor::new(source);
        cursor.advance();
        proof {
            cursor.lemma_index_in_range();
        }
        let scanner = Scanner {
            file_name_: file_name,
            cursor_: cursor,
            state_: State::START,
            token_: Token::default(),
            dictionary_: Dictionary::get_dictionary(),
            errors_: Vec::new(),
            error_flag_: false,
        };
        assert(error_views(scanner.errors_@) =~= Seq::<ErrorView>::empty());
        scanner
    }

    /// Where the scanner stands.
    fn get_token_location(&self) -> (location: TokenLocation)
        requires
            self.inv(),
        ensures
            location@ == location_at(self.file_name_@, self.cursor_.source(), self.cursor_.index()),
    {
        TokenLocation::new(self.file_name_.clone(), self.cursor_.line(), self.cursor_.column())
    }

    fn make_token(
        &mut self,
        token_type: TokenType,
        token_value: TokenValue,
        loc: TokenLocation,
        name: String,
        symbol_precedence: i32,
    )
        ensures
            final(self).token_@ == plain_token(
                token_type,
                token_value,
                loc@,
                name@,
                symbol_precedence as int,
            ),
            *final(self) == (Scanner {
                token_: final(self).token_,
                state_: State::START,
                ..*old(self)
            }),
    {
        self.token_ = Token::new_token(token_type, token_value, loc, name, symbol_precedence);
        self.state_ = State::START;
    }

    fn make_int_token(&mut self, loc: TokenLocation, name: String, int_value: i32)
        ensures
            final(self).token_@ == int_token(loc@, name@, int_value as int),
            *final(self) == (Scanner {
                token_: final(self).token_,
                state_: State::START,
                ..*old(self)
            }),
    {
        self.token_ = Token::new_int_token(loc, name, int_value);
        self.state_ = State::START;
    }

    fn make_real_token(&mut self, loc: TokenLocation, name: String)
        ensures
            final(self).token_@ == real_token(loc@, name@),
            *final(self) == (Scanner {
                token_: final(self).token_,
                state_: State::START,
                ..*old(self)
            }),
    {
        self.token_ = Token::new_real_token(loc, name);
        self.state_ = State::START;
    }

    fn make_char_token(&mut self, loc: TokenLocation, name: String, char_value: char)
        ensures
            final(self).token_@ == char_token(loc@, name@, char_value),
            *final(self) == (Scanner {
                token_: final(self).token_,
                state_: State::START,
                ..*old(self)
            }),
    {
        self.token_ = Token::new_char_token(loc, name, char_value);
        self.state_ = State::START;
    }

    fn make_str_token(&mut self, loc: TokenLocation, name: String, str_value: String)
        ensures
            final(self).token_@ == str_token(loc@, name@, str_value@),
            *final(self) == (Scanner {
                token_: final(self).token_,
                state_: State::START,
                ..*old(self)
            }),
    {
        self.token_ = Token::new_str_token(loc, name, str_value);
        self.state_ = State::START;
    }

    /// Reports an error of the given kind at the place where the scanner stands, and gives up
    /// the token that was being read.
    fn error_report(&mut self, kind: LexicalErrorKind)
        requires
            old(self).inv(),
        ensures
            error_views(final(self).errors_@) == error_views(old(self).errors_@).push(
                ErrorView {
                    kind,
                    location: location_at(
                        old(self).file_name_@,
                        old(self).cursor_.source(),
                        old(self).cursor_.index(),
                    ),
                },
            ),
            *final(self) == (Scanner {
                errors_: final(self).errors_,
                error_flag_: true,
                state_: State::START,
                ..*old(self)
            }),
    {
        let location = self.get_token_location();
        self.errors_.push(LexicalError::new(kind, location));
        self.error_flag_ = true;
        self.state_ = State::START;
        assert(error_views(self.errors_@) =~= error_views(old(self).errors_@).push(
            ErrorView {
                kind,
                location: location_at(
                    old(self).file_name_@,
                    old(self).cursor_.source(),
                    old(self).cursor_.index(),
                ),
            },
        ));
    }
    /// Skips the line comment that starts where the scanner stands, if one does, and says
    /// whether one did.
    fn handle_line_comment(&mut self) -> (skipped: bool)
        requires
            old(self).inv(),
        ensures
            skipped == line_comment_at(old(self).cursor_.source(), old(self).cursor_.index()),
            final(self).moved(
                *old(self),
                if skipped {
                    line_comment_end(old(self).cursor_.source(), old(self).cursor_.index())
                } else {
                    old(self).cursor_.index()
                },
            ),
    {
        if self.cursor_.current() == '/' && self.cursor_.peek() == '/' {
            self.cursor_.advance_by(2);
            self.cursor_.skip_run(CharClass::LineBody);
            proof {
                lemma_run_end(
                    self.cursor_.source(),
                    CharClass::LineBody,
                    old(self).cursor_.index() + 2,
                );
            }
            if !self.cursor_.is_eof() {
                self.cursor_.advance();
            }
            true
        } else {
            false
        }
    }

    /// Skips the block comment that starts where the scanner stands, if one does, and says
    /// whether one did. A comment that is never closed takes the rest of the source and is
    /// reported.
    fn handle_block_comment(&mut self) -> (skipped: bool)
        requires
            old(self).inv(),
        ensures
            skipped == block_comment_at(old(self).cursor_.source(), old(self).cursor_.index()),
            !skipped ==> final(self).moved(*old(self), old(self).cursor_.index()),
            skipped && comment_close(old(self).cursor_.source(), old(self).cursor_.index() + 2)
                < old(self).cursor_.source().len() ==> final(self).moved(
                *old(self),
                comment_close(old(self).cursor_.source(), old(self).cursor_.index() + 2) + 2,
            ),
            skipped && comment_close(old(self).cursor_.source(), old(self).cursor_.index() + 2)
                >= old(self).cursor_.source().len() ==> final(self).stepped(
                *old(self),
                reject(
                    old(self).file_name_@,
                    old(self).cursor_.source(),
                    old(self).cursor_.source().len() as int,
                    LexicalErrorKind::UnterminatedComment,
                ),
            ),
    {
        if self.cursor_.current() == '/' && self.cursor_.peek() == '*' {
            let ghost src = self.cursor_.source();
            let ghost body = self.cursor_.index() + 2;
            self.cursor_.advance_by(2);
            while !self.cursor_.is_eof() && !(self.cursor_.current() == '*' && self.cursor_.peek()
                == '/')
                invariant
                    self.moved(*old(self), self.cursor_.index()),
                    src == self.cursor_.source(),
                    body <= self.cursor_.index(),
                    comment_close(src, self.cursor_.index()) == comment_close(src, body),
                decreases src.len() - self.cursor_.index(),
            {
                self.cursor_.advance();
            }
            proof {
                lemma_comment_close(src, self.cursor_.index());
            }
            if self.cursor_.is_eof() {
                self.error_report(LexicalErrorKind::UnterminatedComment);
            } else {
                self.cursor_.advance_by(2);
            }
            true
        } else {
            false
        }
    }

    /// Skips the blanks and comments in front of the next token.
    fn preprocess(&mut self)
        requires
            old(self).inv(),
            old(self).state_ == State::START,
            !old(self).error_flag_,
        ensures
            !trivia(old(self).cursor_.source(), old(self).cursor_.index()).unterminated
                ==> final(self).moved(
                *old(self),
                trivia(old(self).cursor_.source(), old(self).cursor_.index()).end,
            ),
            trivia(old(self).cursor_.source(), old(self).cursor_.index()).unterminated
                ==> final(self).stepped(
                *old(self),
                reject(
                    old(self).file_name_@,
                    old(self).cursor_.source(),
                    old(self).cursor_.source().len() as int,
                    LexicalErrorKind::UnterminatedComment,
                ),
            ),
    {
        let ghost src = self.cursor_.source();
        let ghost start = self.cursor_.index();
        loop
            invariant_except_break
                self.moved(*old(self), self.cursor_.index()),
                trivia(src, self.cursor_.index()) == trivia(src, start),
            invariant
                src == old(self).cursor_.source(),
                start == old(self).cursor_.index(),
                old(self).state_ == State::START,
                !old(self).error_flag_,
            ensures
                !trivia(src, start).unterminated ==> self.moved(*old(self), trivia(src, start).end),
                trivia(src, start).unterminated ==> self.stepped(
                    *old(self),
                    reject(
                        old(self).file_name_@,
                        src,
                        src.len() as int,
                        LexicalErrorKind::UnterminatedComment,
                    ),
                ),
            decreases src.len() - self.cursor_.index(),
        {
            let ghost from = self.cursor_.index();
            self.cursor_.skip_run(CharClass::Whitespace);
            proof {
                lemma_run_end(src, CharClass::Whitespace, from);
                let after = self.cursor_.index();
                if line_comment_at(src, after) {
                    lemma_run_end(src, CharClass::LineBody, after + 2);
                }
                lemma_comment_close(src, after + 2);
            }
            if self.handle_line_comment() {
            } else if self.handle_block_comment() {
                if self.error_flag_ {
                    break ;
                }
            } else {
                break ;
            }
        }
    }

    /// Emits the token that marks the end of the source, and stays at the end.
    fn handle_eof_state(&mut self)
        requires
            old(self).inv(),
            !old(self).error_flag_,
            old(self).cursor_.index() == old(self).cursor_.source().len(),
        ensures
            final(self).state_ == State::END_OF_FILE,
            final(self).stepped(
                *old(self),
                accept(
                    old(self).cursor_.source().len() as int,
                    end_of_file_token(old(self).file_name_@, old(self).cursor_.source()),
                ),
            ),
    {
        let loc = self.get_token_location();
        self.make_token(
            TokenType::END_OF_FILE,
            TokenValue::UNRESERVED,
            loc,
            "END_OF_FILE".to_string(),
            -1,
        );
        self.state_ = State::END_OF_FILE;
    }

    /// Reads an identifier or a reserved word.
    fn handle_identifier_state(&mut self)
        requires
            old(self).inv(),
            old(self).cursor_.index() < old(self).cursor_.source().len(),
        ensures
            final(self).stepped(
                *old(self),
                identifier_step(
                    old(self).file_name_@,
                    old(self).cursor_.source(),
                    old(self).cursor_.index(),
                ),
            ),
    {
        let loc = self.get_token_location();
        let start = self.cursor_.offset();
        self.cursor_.advance();
        self.cursor_.skip_run(CharClass::Word);
        proof {
            lemma_run_end(self.cursor_.source(), CharClass::Word, start + 1);
        }
        let word_end = self.cursor_.offset();
        let mut name = self.cursor_.lexeme(start, word_end);
        if name == "System".to_string() && self.cursor_.matches_ahead(".out.println") {
            let count = ".out.println".unicode_len();
            self.cursor_.advance_by(count);
            name = self.cursor_.lexeme(start, word_end + count);
        }
        let (token_value, token_type, precedence) = self.dictionary_.lookup(&name);
        self.error_flag_ = false;
        self.make_token(token_type, token_value, loc, name, precedence);
    }

    /// Reads an operator or a delimiter: two characters where the dictionary holds the two
    /// together, one otherwise.
    fn handle_operation_state(&mut self)
        requires
            old(self).inv(),
            old(self).cursor_.index() < old(self).cursor_.source().len(),
        ensures
            final(self).stepped(
                *old(self),
                operator_step(
                    old(self).file_name_@,
                    old(self).cursor_.source(),
                    old(self).cursor_.index(),
                ),
            ),
    {
        let loc = self.get_token_location();
        let start = self.cursor_.offset();
        let mut count: usize = 1;
        if self.cursor_.bytes().len() - start >= 2 {
            let candidate = self.cursor_.lexeme(start, start + 2);
            if self.dictionary_.have_token(&candidate) {
                count = 2;
            }
        }
        let name = self.cursor_.lexeme(start, start + count);
        let (token_value, token_type, precedence) = if self.dictionary_.have_token(&name) {
            self.dictionary_.lookup(&name)
        } else {
            (TokenValue::UNRESERVED, TokenType::UNKNOWN, -1)
        };
        self.cursor_.advance_by(count);
        self.error_flag_ = false;
        self.make_token(token_type, token_value, loc, name, precedence);
    }

    /// Reads past the opening quote of a literal and on to its last character, the one that has
    /// the closing quote behind it, or to the end of the source.
    fn find_literal_close(&mut self, quote: char)
        requires
            old(self).inv(),
            old(self).cursor_.index() < old(self).cursor_.source().len(),
            quote == '\'' || quote == '"',
        ensures
            final(self).moved(
                *old(self),
                literal_close(old(self).cursor_.source(), quote, old(self).cursor_.index() + 1),
            ),
    {
        let ghost src = self.cursor_.source();
        let ghost body = self.cursor_.index() + 1;
        self.cursor_.advance();
        while !self.cursor_.is_eof() && !(self.cursor_.current() != '\\' && self.cursor_.peek()
            == quote)
            invariant
                self.moved(*old(self), self.cursor_.index()),
                src == self.cursor_.source(),
                body <= self.cursor_.index(),
                literal_close(src, quote, self.cursor_.index()) == literal_close(src, quote, body),
            decreases src.len() - self.cursor_.index(),
        {
            self.cursor_.advance();
        }
    }

    /// Reads a character literal.
    fn handle_char_state(&mut self)
        requires
            old(self).inv(),
            old(self).cursor_.index() < old(self).cursor_.source().len(),
        ensures
            final(self).stepped(
                *old(self),
                char_step(
                    old(self).file_name_@,
                    old(self).cursor_.source(),
                    old(self).cursor_.index(),
                ),
            ),
    {
        let loc = self.get_token_location();
        let start = self.cursor_.offset();
        self.error_flag_ = false;
        self.find_literal_close('\'');
        proof {
            lemma_literal_close(self.cursor_.source(), '\'', start + 1);
        }
        if self.cursor_.is_eof() {
            self.error_report(LexicalErrorKind::UnterminatedChar);
        } else {
            let last = self.cursor_.offset();
            let ch = self.cursor_.current();
            self.cursor_.advance_by(2);
            if last == start + 1 {
                let name = self.cursor_.lexeme(last, last + 1);
                self.make_char_token(loc, name, ch);
            } else {
                self.error_report(LexicalErrorKind::CharLength);
            }
        }
    }

    /// Reads a string literal.
    fn handle_string_state(&mut self)
        requires
            old(self).inv(),
            old(self).cursor_.index() < old(self).cursor_.source().len(),
        ensures
            final(self).stepped(
                *old(self),
                string_step(
                    old(self).file_name_@,
                    old(self).cursor_.source(),
                    old(self).cursor_.index(),
                ),
            ),
    {
        let loc = self.get_token_location();
        let start = self.cursor_.offset();
        self.error_flag_ = false;
        self.find_literal_close('"');
        proof {
            lemma_literal_close(self.cursor_.source(), '"', start + 1);
        }
        if self.cursor_.is_eof() {
            self.error_report(LexicalErrorKind::UnterminatedString);
        } else {
            let last = self.cursor_.offset();
            self.cursor_.advance_by(2);
            let name = self.cursor_.lexeme(start + 1, last + 1);
            let str_value = name.clone();
            self.make_str_token(loc, name, str_value);
        }
    }
    /// Reads a run of decimal digits.
    fn handle_digit(&mut self)
        requires
            old(self).inv(),
        ensures
            final(self).moved(
                *old(self),
                run_end(old(self).cursor_.source(), CharClass::Digit, old(self).cursor_.index()),
            ),
    {
        self.cursor_.skip_run(CharClass::Digit);
        proof {
            lemma_run_end(old(self).cursor_.source(), CharClass::Digit, old(self).cursor_.index());
        }
    }

    /// Reads a run of hexadecimal digits.
    fn handle_xdigit(&mut self)
        requires
            old(self).inv(),
        ensures
            final(self).moved(
                *old(self),
                run_end(old(self).cursor_.source(), CharClass::HexDigit, old(self).cursor_.index()),
            ),
    {
        self.cursor_.skip_run(CharClass::HexDigit);
        proof {
            lemma_run_end(
                old(self).cursor_.source(),
                CharClass::HexDigit,
                old(self).cursor_.index(),
            );
        }
    }

    /// Reads a run of octal digits.
    fn handle_odigit(&mut self)
        requires
            old(self).inv(),
        ensures
            final(self).moved(
                *old(self),
                run_end(
                    old(self).cursor_.source(),
                    CharClass::OctalDigit,
                    old(self).cursor_.index(),
                ),
            ),
    {
        self.cursor_.skip_run(CharClass::OctalDigit);
        proof {
            lemma_run_end(
                old(self).cursor_.source(),
                CharClass::OctalDigit,
                old(self).cursor_.index(),
            );
        }
    }

    /// Reads the fraction of a number, if the scanner stands at a dot, and says whether there
    /// is one. A dot that starts no fraction is reported.
    fn handle_fraction(&mut self, base: NumberBase) -> (present: bool)
        requires
            old(self).inv(),
            !old(self).error_flag_,
        ensures
            ({
                let part = fraction_part(
                    old(self).cursor_.source(),
                    base,
                    old(self).cursor_.index(),
                );
                &&& present == part.present
                &&& part.error is None ==> final(self).moved(*old(self), part.end)
                &&& part.error is Some ==> final(self).stepped(
                    *old(self),
                    reject(
                        old(self).file_name_@,
                        old(self).cursor_.source(),
                        part.end,
                        part.error->0,
                    ),
                )
            }),
    {
        if self.cursor_.current() != '.' {
            return false;
        }
        match base {
            NumberBase::Hexadecimal => {
                self.error_report(LexicalErrorKind::DotAfterHex);
                false
            },
            NumberBase::Octal => {
                self.error_report(LexicalErrorKind::DotAfterOctal);
                false
            },
            NumberBase::Decimal => {
                self.cursor_.advance();
                if !is_digit(self.cursor_.current()) {
                    self.error_report(LexicalErrorKind::FractionDigitsMissing);
                    false
                } else {
                    self.handle_digit();
                    true
                }
            },
        }
    }

    /// Reads the exponent of a number, if the scanner stands at `e` or `E`, and says whether
    /// there is one. `fraction` says whether the number has a fraction. An exponent that is not
    /// well formed is reported, and so is a dot or another exponent where none may stand.
    fn handle_exponent(&mut self, fraction: bool) -> (present: bool)
        requires
            old(self).inv(),
            !old(self).error_flag_,
        ensures
            ({
                let part = exponent_part(
                    old(self).cursor_.source(),
                    fraction,
                    old(self).cursor_.index(),
                );
                &&& present == part.present
                &&& part.error is None ==> final(self).moved(*old(self), part.end)
                &&& part.error is Some ==> final(self).stepped(
                    *old(self),
                    reject(
                        old(self).file_name_@,
                        old(self).cursor_.source(),
                        part.end,
                        part.error->0,
                    ),
                )
            }),
    {
        let c = self.cursor_.current();
        if c == '.' {
            self.error_report(LexicalErrorKind::SecondDot);
            return false;
        }
        if !(c == 'e' || c == 'E') {
            return false;
        }
        self.cursor_.advance();
        let sign = self.cursor_.current();
        if !(sign == '+' || sign == '-' || is_digit(sign)) {
            self.error_report(LexicalErrorKind::ExponentMalformed);
            return false;
        }
        if sign == '+' || sign == '-' {
            self.cursor_.advance();
        }
        if !is_digit(self.cursor_.current()) {
            self.error_report(LexicalErrorKind::ExponentDigitsMissing);
            return false;
        }
        self.handle_digit();
        let after = self.cursor_.current();
        if after == '.' {
            if fraction {
                self.error_report(LexicalErrorKind::SecondDot);
            } else {
                self.error_report(LexicalErrorKind::DotAfterExponent);
            }
            false
        } else if after == 'e' || after == 'E' {
            self.error_report(LexicalErrorKind::SecondExponent);
            false
        } else {
            true
        }
    }

    /// Reads an integer or a real literal.
    fn handle_number_state(&mut self)
        requires
            old(self).inv(),
            old(self).cursor_.index() < old(self).cursor_.source().len(),
            is_digit(char_at(old(self).cursor_.source(), old(self).cursor_.index())),
        ensures
            final(self).stepped(
                *old(self),
                number_step(
                    old(self).file_name_@,
                    old(self).cursor_.source(),
                    old(self).cursor_.index(),
                ),
            ),
    {
        let loc = self.get_token_location();
        self.error_flag_ = false;
        let base = number_base(self.cursor_.current(), self.cursor_.peek());
        self.cursor_.advance_by(base.prefix_len());
        let first = self.cursor_.offset();
        match base {
            NumberBase::Decimal => self.handle_digit(),
            NumberBase::Hexadecimal => self.handle_xdigit(),
            NumberBase::Octal => self.handle_odigit(),
        }
        let int_end = self.cursor_.offset();
        proof {
            let src = self.cursor_.source();
            lemma_run_end(src, base.digits(), first as int);
            lemma_number_parts(src, base, false, int_end as int);
            let fraction = fraction_part(src, base, int_end as int);
            lemma_number_parts(src, base, fraction.present, fraction.end);
        }
        if int_end == first {
            self.error_report(LexicalErrorKind::HexDigitsMissing);
            return ;
        }
        let fraction = self.handle_fraction(base);
        if self.error_flag_ {
            return ;
        }
        let exponent = self.handle_exponent(fraction);
        if self.error_flag_ {
            return ;
        }
        let end = self.cursor_.offset();
        if fraction || exponent {
            let name = self.cursor_.lexeme(first, end);
            self.make_real_token(loc, name);
        } else {
            match parse_digits(self.cursor_.bytes(), first, int_end, base) {
                Some(int_value) => {
                    let name = self.cursor_.lexeme(first, int_end);
                    self.make_int_token(loc, name, int_value);
                },
                None => {
                    self.error_report(LexicalErrorKind::IntegerOutOfRange);
                },
            }
        }
    }

    /// Get the current token: the one that the last request produced, or the default token
    /// before the first request.
    pub fn get_token(&self) -> (token: Token)
        ensures
            token@ == self.token(),
    {
        self.token_.clone()
    }

    /// Hands out the errors reported since they were last taken, in their order.
    pub fn take_errors(&mut self) -> (errors: Vec<LexicalError>)
        requires
            old(self).wf(),
        ensures
            final(self).wf(),
            error_views(errors@) == old(self).errors(),
            final(self).errors() == Seq::<ErrorView>::empty(),
            final(self).file_name() == old(self).file_name(),
            final(self).source() == old(self).source(),
            final(self).position() == old(self).position(),
            final(self).token() == old(self).token(),
    {
        let mut errors: Vec<LexicalError> = Vec::new();
        std::mem::swap(&mut self.errors_, &mut errors);
        assert(error_views(self.errors_@) =~= Seq::<ErrorView>::empty());
        errors
    }

    /// Makes one attempt to read a token.
    fn scan_once(&mut self)
        requires
            old(self).inv(),
            old(self).state_ == State::START,
        ensures
            final(self).stepped(
                *old(self),
                attempt(
                    old(self).file_name_@,
                    old(self).cursor_.source(),
                    old(self).cursor_.index(),
                ),
            ),
    {
        proof {
            lemma_trivia(self.cursor_.source(), self.cursor_.index());
        }
        self.error_flag_ = false;
        self.preprocess();
        if self.error_flag_ {
            return ;
        }
        self.state_ = classify(self.cursor_.current(), self.cursor_.is_eof());
        match self.state_ {
            State::END_OF_FILE => self.handle_eof_state(),
            State::IDENTIFIER => self.handle_identifier_state(),
            State::NUMBER => self.handle_number_state(),
            State::CHAR_LITERAL => self.handle_char_state(),
            State::STRING_LITERAL => self.handle_string_state(),
            _ => self.handle_operation_state(),
        }
    }

    /// Get the next token.
    ///
    /// Skips blanks and comments and reads one token, starting where the last request stopped.
    /// Text that is no token is reported as an error and passed over, however often that
    /// happens before a token is found. At the end of the source the token is `END_OF_FILE`, and
    /// it stays that: the scanner moves no further.
    pub fn get_next_token(&mut self) -> (token: Token)
        requires
            old(self).wf(),
        ensures
            final(self).wf(),
            final(self).file_name() == old(self).file_name(),
            final(self).source() == old(self).source(),
            token@ == scan(old(self).file_name(), old(self).source(), old(self).position()).token,
            final(self).token() == token@,
            final(self).position() == scan(
                old(self).file_name(),
                old(self).source(),
                old(self).position(),
            ).end,
            final(self).errors() == old(self).errors() + scan(
                old(self).file_name(),
                old(self).source(),
                old(self).position(),
            ).errors,
    {
        let ghost file = self.file_name_@;
        let ghost src = self.cursor_.source();
        let ghost goal = scan(file, src, self.cursor_.index());
        let ghost reported = error_views(self.errors_@);
        loop
            invariant
                self.wf(),
                self.file_name_@ == file,
                self.cursor_.source() == src,
                file == old(self).file_name(),
                src == old(self).source(),
                goal == scan(file, src, old(self).position()),
                reported == old(self).errors(),
                scan(file, src, self.cursor_.index()).token == goal.token,
                scan(file, src, self.cursor_.index()).end == goal.end,
                error_views(self.errors_@) + scan(file, src, self.cursor_.index()).errors
                    == reported + goal.errors,
            decreases src.len() - self.cursor_.index(),
        {
            let ghost from = self.cursor_.index();
            let ghost before = error_views(self.errors_@);
            let ghost step = attempt(file, src, from);
            proof {
                lemma_attempt(file, src, from);
                assert(before + Seq::<ErrorView>::empty() =~= before);
            }
            if self.state_ == State::END_OF_FILE {
                proof {
                    lemma_trivia(src, from);
                }
                return self.token_.clone();
            }
            self.scan_once();
            if !self.error_flag_ {
                return self.token_.clone();
            }
            proof {
                let rest = scan(file, src, step.end);
                assert(before.push(step.outcome->Err_0) + rest.errors =~= before + (seq![
                    step.outcome->Err_0,
                ] + rest.errors));
            }
        }
    }
}

} // verus!
