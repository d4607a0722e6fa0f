use crate::text::{decimal_text, push_decimal, push_text};
use vstd::prelude::*;

verus! {

/// The lexical category of a token.
#[allow(non_camel_case_types)]
#[derive(Clone, Copy, Debug, PartialEq, Eq, Structural)]
pub enum TokenType {
    /// such as `3`, `0x1A`
    INTEGER_LITERAL,
    /// `true` or `false`
    BOOLEAN_LITERAL,
    /// such as `3.14`
    REAL_LITERAL,
    /// such as `'a'`
    CHAR_LITERAL,
    /// such as `"hello world"`
    STRING_LITERAL,
    /// such as `abc`
    IDENTIFIER,
    /// such as `if`, `while`
    KEYWORD,
    /// such as `int`
    TYPE,
    /// such as `+`, `-`, `*`, `<`, `&&`
    OPERATOR,
    /// such as `,`, `;`
    DELIMITER,
    /// end of the source
    END_OF_FILE,
    /// anything else
    UNKNOWN,
}

/// What a reserved lexeme means; `UNRESERVED` for every other lexeme.
#[derive(Clone, Copy, Debug, PartialEq, Eq, Structural)]
pub enum TokenValue {
    CLASS,
    PUBLIC,
    STATIC,
    VOID,
    MAIN,
    EXTENDS,
    RETURN,
    IF,
    ELSE,
    WHILE,
    FOR,
    /// `System.out.println`
    PRINT,
    LENGTH,
    THIS,
    NEW,
    DOUBLE,
    INT,
    CHAR,
    STRING,
    BOOL,
    TRUE,
    FALSE,
    /// `(`
    LPAREN,
    /// `)`
    RPAREN,
    /// `[`
    LBRACK,
    /// `]`
    RBRACK,
    /// `{`
    LBRACE,
    /// `}`
    RBRACE,
    /// `,`
    COMMA,
    /// `;`
    SEMICOLON,
    /// `=`
    ASSIGN,
    /// `&&`
    AND,
    /// `<`
    LT,
    /// `+`
    ADD,
    /// `-`
    SUB,
    /// `*`
    MULTI,
    /// `.`
    DOT,
    /// `!`
    NOT,
    /// not a reserved lexeme
    UNRESERVED,
}

/// A place in a source: the file's name, the line and the column.
pub struct LocationView {
    pub file_name: Seq<char>,
    pub line: int,
    pub column: int,
}

/// The location written out: `file:line:column:`.
pub open spec fn location_text(location: LocationView) -> Seq<char> {
    location.file_name + seq![':'] + decimal_text(location.line) + seq![':'] + decimal_text(
        location.column,
    ) + seq![':']
}

/// Where a token or an error was found.
#[derive(Debug)]
pub struct TokenLocation {
    file_name_: String,
    line_: i32,
    column_: i32,
}

impl View for TokenLocation {
    type V = LocationView;

    closed spec fn view(&self) -> LocationView {
        LocationView {
            file_name: self.file_name_@,
            line: self.line_ as int,
            column: self.column_ as int,
        }
    }
}

impl Default for TokenLocation {
    fn default() -> (r: Self)
        ensures
            r@ == (LocationView { file_name: Seq::empty(), line: 0, column: 0 }),
    {
        TokenLocation { file_name_: String::new(), line_: 0, column_: 0 }
    }
}

impl Clone for TokenLocation {
    fn clone(&self) -> (r: Self)
        ensures
            r@ == self@,
    {
        TokenLocation {
            file_name_: self.file_name_.clone(),
            line_: self.line_,
            column_: self.column_,
        }
    }
}

impl TokenLocation {
    pub fn new(file_name: String, line: i32, column: i32) -> (r: Self)
        ensures
            r@ == (LocationView { file_name: file_name@, line: line as int, column: column as int }),
    {
        TokenLocation { file_name_: file_name, line_: line, column_: column }
    }

    pub fn get_file_name(&self) -> (r: String)
        ensures
            r@ == self@.file_name,
    {
        self.file_name_.clone()
    }

    pub fn get_line(&self) -> (r: i32)
        ensures
            r == self@.line,
    {
        self.line_
    }

    pub fn get_column(&self) -> (r: i32)
        ensures
            r == self@.column,
    {
        self.column_
    }

    /// `file:line:column:`
    pub fn to_string(&self) -> (r: String)
        ensures
            r@ == location_text(self@),
    {
        let mut out = self.file_name_.clone();
        out.push(':');
        push_decimal(&mut out, self.line_);
        out.push(':');
        push_decimal(&mut out, self.column_);
        out.push(':');
        assert(out@ =~= location_text(self@));
        out
    }
}

/// The lower-case label of a category.
pub open spec fn type_description(category: TokenType) -> Seq<char> {
    match category {
        TokenType::INTEGER_LITERAL => "integer"@,
        TokenType::BOOLEAN_LITERAL => "boolean"@,
        TokenType::REAL_LITERAL => "real"@,
        TokenType::CHAR_LITERAL => "char literal"@,
        TokenType::STRING_LITERAL => "string literal"@,
        TokenType::IDENTIFIER => "identifier"@,
        TokenType::KEYWORD => "keyword"@,
        TokenType::TYPE => "type"@,
        TokenType::OPERATOR => "operator"@,
        TokenType::DELIMITER => "delimiter"@,
        TokenType::END_OF_FILE => "eof"@,
        TokenType::UNKNOWN => "unknown"@,
    }
}

/// A token as a mathematical value.
///
/// `int_value`, `char_value` and `str_value` are the payloads. The category alone says which of
/// them carries the token's value: `int_value` for `INTEGER_LITERAL`, `char_value` for
/// `CHAR_LITERAL`, `str_value` for `STRING_LITERAL`. The others hold their defaults. The value of
/// a `REAL_LITERAL` is what its `name` denotes in decimal notation.
pub struct TokenView {
    pub category: TokenType,
    pub value: TokenValue,
    pub location: LocationView,
    pub name: Seq<char>,
    pub precedence: int,
    pub int_value: int,
    pub char_value: char,
    pub str_value: Seq<char>,
}

/// The token that a scanner holds before it has produced any.
pub open spec fn default_token() -> TokenView {
    TokenView {
        category: TokenType::IDENTIFIER,
        value: TokenValue::UNRESERVED,
        location: LocationView { file_name: Seq::empty(), line: 0, column: 0 },
        name: Seq::empty(),
        precedence: -1,
        int_value: 0,
        char_value: '\0',
        str_value: Seq::empty(),
    }
}

/// A token without payload.
pub open spec fn plain_token(
    category: TokenType,
    value: TokenValue,
    location: LocationView,
    name: Seq<char>,
    precedence: int,
) -> TokenView {
    TokenView { category, value, location, name, precedence, ..default_token() }
}

pub open spec fn int_token(location: LocationView, name: Seq<char>, int_value: int) -> TokenView {
    TokenView { category: TokenType::INTEGER_LITERAL, location, name, int_value, ..default_token() }
}

pub open spec fn real_token(location: LocationView, name: Seq<char>) -> TokenView {
    TokenView { category: TokenType::REAL_LITERAL, location, name, ..default_token() }
}

pub open spec fn char_token(location: LocationView, name: Seq<char>, char_value: char) -> TokenView {
    TokenView { category: TokenType::CHAR_LITERAL, location, name, char_value, ..default_token() }
}

pub open spec fn str_token(location: LocationView, name: Seq<char>, str_value: Seq<char>) -> TokenView {
    TokenView { category: TokenType::STRING_LITERAL, location, name, str_value, ..default_token() }
}

/// The line that shows a token: its location, the label of its category, and its text.
pub open spec fn token_text(token: TokenView) -> Seq<char> {
    location_text(token.location) + " Token Type: "@ + type_description(token.category)
        + " Token Name: "@ + token.name
}

/// Lexical token
#[derive(Debug)]
pub struct Token {
    type_: TokenType,
    value_: TokenValue,
    location_: TokenLocation,
    name_: String,
    symbol_precedence_: i32,
    int_value_: i32,
    char_value_: char,
    str_value_: String,
}

impl View for Token {
    type V = TokenView;

    closed spec fn view(&self) -> TokenView {
        TokenView {
            category: self.type_,
            value: self.value_,
            location: self.location_@,
            name: self.name_@,
            precedence: self.symbol_precedence_ as int,
            int_value: self.int_value_ as int,
            char_value: self.char_value_,
            str_value: self.str_value_@,
        }
    }
}

impl Default for Token {
    fn default() -> (r: Self)
        ensures
            r@ == default_token(),
    {
        Token {
            type_: TokenType::IDENTIFIER,
            value_: TokenValue::UNRESERVED,
            location_: TokenLocation::default(),
            name_: String::new(),
            symbol_precedence_: -1,
            int_value_: 0,
            char_value_: '\0',
            str_value_: String::new(),
        }
    }
}

impl Clone for Token {
    fn clone(&self) -> (r: Self)
        ensures
            r@ == self@,
    {
        Token {
            type_: self.type_,
            value_: self.value_,
            location_: self.location_.clone(),
            name_: self.name_.clone(),
            symbol_precedence_: self.symbol_precedence_,
            int_value_: self.int_value_,
            char_value_: self.char_value_,
            str_value_: self.str_value_.clone(),
        }
    }
}

impl Token {
    /// The default token.
    pub fn new() -> (r: Self)
        ensures
            r@ == default_token(),
    {
        Token::default()
    }

    /// A token without payload: an identifier, a reserved word, an operator, a delimiter.
    pub fn new_token(
        token_type: TokenType,
        token_value: TokenValue,
        loc: TokenLocation,
        name: String,
        symbol_precedence: i32,
    ) -> (r: Self)
        ensures
            r@ == plain_token(token_type, token_value, loc@, name@, symbol_precedence as int),
    {
        Token {
            type_: token_type,
            value_: token_value,
            location_: loc,
            name_: name,
            symbol_precedence_: symbol_precedence,
            int_value_: 0,
            char_value_: '\0',
            str_value_: String::new(),
        }
    }

    /// An `INTEGER_LITERAL` token.
    pub fn new_int_token(loc: TokenLocation, name: String, int_value: i32) -> (r: Self)
        ensures
            r@ == int_token(loc@, name@, int_value as int),
    {
        Token {
            type_: TokenType::INTEGER_LITERAL,
            value_: TokenValue::UNRESERVED,
            location_: loc,
            name_: name,
            symbol_precedence_: -1,
            int_value_: int_value,
            char_value_: '\0',
            str_value_: String::new(),
        }
    }

    /// A `REAL_LITERAL` token. Its value is what `name` denotes.
    pub fn new_real_token(loc: TokenLocation, name: String) -> (r: Self)
        ensures
            r@ == real_token(loc@, name@),
    {
        Token {
            type_: TokenType::REAL_LITERAL,
            value_: TokenValue::UNRESERVED,
            location_: loc,
            name_: name,
            symbol_precedence_: -1,
            int_value_: 0,
            char_value_: '\0',
            str_value_: String::new(),
        }
    }

    /// A `CHAR_LITERAL` token.
    pub fn new_char_token(loc: TokenLocation, name: String, char_value: char) -> (r: Self)
        ensures
            r@ == char_token(loc@, name@, char_value),
    {
        Token {
            type_: TokenType::CHAR_LITERAL,
            value_: TokenValue::UNRESERVED,
            location_: loc,
            name_: name,
            symbol_precedence_: -1,
            int_value_: 0,
            char_value_: char_value,
            str_value_: String::new(),
        }
    }

    /// A `STRING_LITERAL` token.
    pub fn new_str_token(loc: TokenLocation, name: String, str_value: String) -> (r: Self)
        ensures
            r@ == str_token(loc@, name@, str_value@),
    {
        Token {
            type_: TokenType::STRING_LITERAL,
            value_: TokenValue::UNRESERVED,
            location_: loc,
            name_: name,
            symbol_precedence_: -1,
            int_value_: 0,
            char_value_: '\0',
            str_value_: str_value,
        }
    }

    pub fn get_token_type(&self) -> (r: TokenType)
        ensures
            r == self@.category,
    {
        self.type_
    }

    pub fn get_token_value(&self) -> (r: TokenValue)
        ensures
            r == self@.value,
    {
        self.value_
    }

    pub fn get_token_location(&self) -> (r: TokenLocation)
        ensures
            r@ == self@.location,
    {
        self.location_.clone()
    }

    pub fn get_token_name(&self) -> (r: String)
        ensures
            r@ == self@.name,
    {
        self.name_.clone()
    }

    pub fn get_symbol_precedence(&self) -> (r: i32)
        ensures
            r == self@.precedence,
    {
        self.symbol_precedence_
    }

    /// The integer payload, which only an `INTEGER_LITERAL` has.
    pub fn get_int_value(&self) -> (r: Option<i32>)
        ensures
            match r {
                Some(value) => self@.category == TokenType::INTEGER_LITERAL && value
                    == self@.int_value,
                None => self@.category != TokenType::INTEGER_LITERAL,
            },
    {
        if self.type_ == TokenType::INTEGER_LITERAL {
            Some(self.int_value_)
        } else {
            None
        }
    }

    /// The character payload, which only a `CHAR_LITERAL` has.
    pub fn get_char_value(&self) -> (r: Option<char>)
        ensures
            r == if self@.category == TokenType::CHAR_LITERAL {
                Some(self@.char_value)
            } else {
                None
            },
    {
        if self.type_ == TokenType::CHAR_LITERAL {
            Some(self.char_value_)
        } else {
            None
        }
    }

    /// The string payload, which only a `STRING_LITERAL` has.
    pub fn get_str_value(&self) -> (r: Option<String>)
        ensures
            match r {
                Some(value) => self@.category == TokenType::STRING_LITERAL && value@
                    == self@.str_value,
                None => self@.category != TokenType::STRING_LITERAL,
            },
    {
        if self.type_ == TokenType::STRING_LITERAL {
            Some(self.str_value_.clone())
        } else {
            None
        }
    }

    /// The label of the token's category.
    pub fn token_type_description(&self) -> (r: String)
        ensures
            r@ == type_description(self@.category),
    {
        let label = match self.type_ {
            TokenType::INTEGER_LITERAL => "integer",
            TokenType::BOOLEAN_LITERAL => "boolean",
            TokenType::REAL_LITERAL => "real",
            TokenType::CHAR_LITERAL => "char literal",
            TokenType::STRING_LITERAL => "string literal",
            TokenType::IDENTIFIER => "identifier",
            TokenType::KEYWORD => "keyword",
            TokenType::TYPE => "type",
            TokenType::OPERATOR => "operator",
            TokenType::DELIMITER => "delimiter",
            TokenType::END_OF_FILE => "eof",
            TokenType::UNKNOWN => "unknown",
        };
        label.to_string()
    }

    /// `<location> Token Type: <label> Token Name: <text>`
    pub fn to_string(&self) -> (r: String)
        ensures
            r@ == token_text(self@),
    {
        let mut out = self.location_.to_string();
        push_text(&mut out, " Token Type: ");
        let label = self.token_type_description();
        push_text(&mut out, label.as_str());
        push_text(&mut out, " Token Name: ");
        push_text(&mut out, self.name_.as_str());
        out
    }
}

} // verus!
