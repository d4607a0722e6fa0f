use crate::token::{TokenType, TokenValue};
use vstd::hash_map::StringHashMap;
use vstd::prelude::*;

verus! {

/// What the table says of a lexeme that it does not hold: an identifier without reserved meaning.
pub open spec fn default_entry() -> (TokenValue, TokenType, i32) {
    (TokenValue::UNRESERVED, TokenType::IDENTIFIER, -1i32)
}

/// The entry of `name` in `table`, or the default entry where it has none.
pub open spec fn lookup_entry(
    table: Map<Seq<char>, (TokenValue, TokenType, i32)>,
    name: Seq<char>,
) -> (TokenValue, TokenType, i32) {
    if table.contains_key(name) {
        table[name]
    } else {
        default_entry()
    }
}

/// The reserved words of the language: each lexeme with its meaning, its category and its
/// precedence. Only operators have a precedence; every other entry carries -1.
pub open spec fn reserved_words() -> Map<Seq<char>, (TokenValue, TokenType, i32)> {
    Map::<Seq<char>, (TokenValue, TokenType, i32)>::empty()
        .insert("="@, (TokenValue::ASSIGN, TokenType::OPERATOR, 0i32))
        .insert("<"@, (TokenValue::LT, TokenType::OPERATOR, 2i32))
        .insert("+"@, (TokenValue::ADD, TokenType::OPERATOR, 10i32))
        .insert("-"@, (TokenValue::SUB, TokenType::OPERATOR, 10i32))
        .insert("*"@, (TokenValue::MULTI, TokenType::OPERATOR, 20i32))
        .insert("&&"@, (TokenValue::AND, TokenType::OPERATOR, 20i32))
        .insert("!"@, (TokenValue::NOT, TokenType::OPERATOR, 40i32))
        .insert("."@, (TokenValue::DOT, TokenType::OPERATOR, 60i32))
        .insert("("@, (TokenValue::LPAREN, TokenType::DELIMITER, -1i32))
        .insert(")"@, (TokenValue::RPAREN, TokenType::DELIMITER, -1i32))
        .insert("["@, (TokenValue::LBRACK, TokenType::DELIMITER, -1i32))
        .insert("]"@, (TokenValue::RBRACK, TokenType::DELIMITER, -1i32))
        .insert("{"@, (TokenValue::LBRACE, TokenType::DELIMITER, -1i32))
        .insert("}"@, (TokenValue::RBRACE, TokenType::DELIMITER, -1i32))
        .insert(","@, (TokenValue::COMMA, TokenType::DELIMITER, -1i32))
        .insert(";"@, (TokenValue::SEMICOLON, TokenType::DELIMITER, -1i32))
        .insert("class"@, (TokenValue::CLASS, TokenType::KEYWORD, -1i32))
        .insert("public"@, (TokenValue::PUBLIC, TokenType::KEYWORD, -1i32))
        .insert("static"@, (TokenValue::STATIC, TokenType::KEYWORD, -1i32))
        .insert("void"@, (TokenValue::VOID, TokenType::KEYWORD, -1i32))
        .insert("main"@, (TokenValue::MAIN, TokenType::KEYWORD, -1i32))
        .insert("extends"@, (TokenValue::EXTENDS, TokenType::KEYWORD, -1i32))
        .insert("return"@, (TokenValue::RETURN, TokenType::KEYWORD, -1i32))
        .insert("if"@, (TokenValue::IF, TokenType::KEYWORD, -1i32))
        .insert("else"@, (TokenValue::ELSE, TokenType::KEYWORD, -1i32))
        .insert("while"@, (TokenValue::WHILE, TokenType::KEYWORD, -1i32))
        .insert("for"@, (TokenValue::FOR, TokenType::KEYWORD, -1i32))
        .insert("System.out.println"@, (TokenValue::PRINT, TokenType::KEYWORD, -1i32))
        .insert("length"@, (TokenValue::LENGTH, TokenType::KEYWORD, -1i32))
        .insert("this"@, (TokenValue::THIS, TokenType::KEYWORD, -1i32))
        .insert("new"@, (TokenValue::NEW, TokenType::KEYWORD, -1i32))
        .insert("true"@, (TokenValue::TRUE, TokenType::BOOLEAN_LITERAL, -1i32))
        .insert("false"@, (TokenValue::FALSE, TokenType::BOOLEAN_LITERAL, -1i32))
        .insert("int"@, (TokenValue::INT, TokenType::TYPE, -1i32))
        .insert("char"@, (TokenValue::CHAR, TokenType::TYPE, -1i32))
        .insert("String"@, (TokenValue::STRING, TokenType::TYPE, -1i32))
        .insert("boolean"@, (TokenValue::BOOL, TokenType::TYPE, -1i32))
}

/// The lexemes that are reserved.
pub open spec fn reserved_lexemes() -> Set<Seq<char>> {
    Set::<Seq<char>>::empty()
        .insert("="@)
        .insert("<"@)
        .insert("+"@)
        .insert("-"@)
        .insert("*"@)
        .insert("&&"@)
        .insert("!"@)
        .insert("."@)
        .insert("("@)
        .insert(")"@)
        .insert("["@)
        .insert("]"@)
        .insert("{"@)
        .insert("}"@)
        .insert(","@)
        .insert(";"@)
        .insert("class"@)
        .insert("public"@)
        .insert("static"@)
        .insert("void"@)
        .insert("main"@)
        .insert("extends"@)
        .insert("return"@)
        .insert("if"@)
        .insert("else"@)
        .insert("while"@)
        .insert("for"@)
        .insert("System.out.println"@)
        .insert("length"@)
        .insert("this"@)
        .insert("new"@)
        .insert("true"@)
        .insert("false"@)
        .insert("int"@)
        .insert("char"@)
        .insert("String"@)
        .insert("boolean"@)
}

/// Dictionary of reserved words
pub struct Dictionary {
    dictionary_: StringHashMap<(TokenValue, TokenType, i32)>,
}

impl View for Dictionary {
    type V = Map<Seq<char>, (TokenValue, TokenType, i32)>;

    closed spec fn view(&self) -> Map<Seq<char>, (TokenValue, TokenType, i32)> {
        self.dictionary_@
    }
}

impl Dictionary {
    /// The dictionary of the language, which holds the reserved words.
    pub fn get_dictionary() -> (dic: Dictionary)
        ensures
            dic@ == reserved_words(),
    {
        let mut dic = Dictionary { dictionary_: StringHashMap::new() };
        dic.dictionary_.insert("=".to_string(), (TokenValue::ASSIGN, TokenType::OPERATOR, 0i32));
        dic.dictionary_.insert("<".to_string(), (TokenValue::LT, TokenType::OPERATOR, 2i32));
        dic.dictionary_.insert("+".to_string(), (TokenValue::ADD, TokenType::OPERATOR, 10i32));
        dic.dictionary_.insert("-".to_string(), (TokenValue::SUB, TokenType::OPERATOR, 10i32));
        dic.dictionary_.insert("*".to_string(), (TokenValue::MULTI, TokenType::OPERATOR, 20i32));
        dic.dictionary_.insert("&&".to_string(), (TokenValue::AND, TokenType::OPERATOR, 20i32));
        dic.dictionary_.insert("!".to_string(), (TokenValue::NOT, TokenType::OPERATOR, 40i32));
        dic.dictionary_.insert(".".to_string(), (TokenValue::DOT, TokenType::OPERATOR, 60i32));
        dic.dictionary_.insert("(".to_string(), (TokenValue::LPAREN, TokenType::DELIMITER, -1i32));
        dic.dictionary_.insert(")".to_string(), (TokenValue::RPAREN, TokenType::DELIMITER, -1i32));
        dic.dictionary_.insert("[".to_string(), (TokenValue::LBRACK, TokenType::DELIMITER, -1i32));
        dic.dictionary_.insert("]".to_string(), (TokenValue::RBRACK, TokenType::DELIMITER, -1i32));
        dic.dictionary_.insert("{".to_string(), (TokenValue::LBRACE, TokenType::DELIMITER, -1i32));
        dic.dictionary_.insert("}".to_string(), (TokenValue::RBRACE, TokenType::DELIMITER, -1i32));
        dic.dictionary_.insert(",".to_string(), (TokenValue::COMMA, TokenType::DELIMITER, -1i32));
        dic.dictionary_.insert(";".to_string(), (TokenValue::SEMICOLON, TokenType::DELIMITER, -1i32));
        dic.dictionary_.insert("class".to_string(), (TokenValue::CLASS, TokenType::KEYWORD, -1i32));
        dic.dictionary_.insert("public".to_string(), (TokenValue::PUBLIC, TokenType::KEYWORD, -1i32));
        dic.dictionary_.insert("static".to_string(), (TokenValue::STATIC, TokenType::KEYWORD, -1i32));
        dic.dictionary_.insert("void".to_string(), (TokenValue::VOID, TokenType::KEYWORD, -1i32));
        dic.dictionary_.insert("main".to_string(), (TokenValue::MAIN, TokenType::KEYWORD, -1i32));
        dic.dictionary_.insert("extends".to_string(), (TokenValue::EXTENDS, TokenType::KEYWORD, -1i32));
        dic.dictionary_.insert("return".to_string(), (TokenValue::RETURN, TokenType::KEYWORD, -1i32));
        dic.dictionary_.insert("if".to_string(), (TokenValue::IF, TokenType::KEYWORD, -1i32));
        dic.dictionary_.insert("else".to_string(), (TokenValue::ELSE, TokenType::KEYWORD, -1i32));
        dic.dictionary_.insert("while".to_string(), (TokenValue::WHILE, TokenType::KEYWORD, -1i32));
        dic.dictionary_.insert("for".to_string(), (TokenValue::FOR, TokenType::KEYWORD, -1i32));
        dic.dictionary_.insert("System.out.println".to_string(), (TokenValue::PRINT, TokenType::KEYWORD, -1i32));
        dic.dictionary_.insert("length".to_string(), (TokenValue::LENGTH, TokenType::KEYWORD, -1i32));
        dic.dictionary_.insert("this".to_string(), (TokenValue::THIS, TokenType::KEYWORD, -1i32));
        dic.dictionary_.insert("new".to_string(), (TokenValue::NEW, TokenType::KEYWORD, -1i32));
        dic.dictionary_.insert("true".to_string(), (TokenValue::TRUE, TokenType::BOOLEAN_LITERAL, -1i32));
        dic.dictionary_.insert("false".to_string(), (TokenValue::FALSE, TokenType::BOOLEAN_LITERAL, -1i32));
        dic.dictionary_.insert("int".to_string(), (TokenValue::INT, TokenType::TYPE, -1i32));
        dic.dictionary_.insert("char".to_string(), (TokenValue::CHAR, TokenType::TYPE, -1i32));
        dic.dictionary_.insert("String".to_string(), (TokenValue::STRING, TokenType::TYPE, -1i32));
        dic.dictionary_.insert("boolean".to_string(), (TokenValue::BOOL, TokenType::TYPE, -1i32));
        dic
    }

    /// Adds an entry, or replaces the one that `name` has.
    pub fn add_token(&mut self, name: String, info: (TokenValue, TokenType, i32))
        ensures
            final(self)@ == old(self)@.insert(name@, info),
    {
        self.dictionary_.insert(name, info);
    }

    /// The entry of `name`: its meaning, its category and its precedence. A name that the
    /// dictionary does not hold has the default entry.
    pub fn lookup(&self, name: &String) -> (info: (TokenValue, TokenType, i32))
        ensures
            info == lookup_entry(self@, name@),
    {
        match self.dictionary_.get(name.as_str()) {
            Some(found) => *found,
            None => (TokenValue::UNRESERVED, TokenType::IDENTIFIER, -1),
        }
    }

    /// Whether the dictionary holds `name`.
    pub fn have_token(&self, name: &String) -> (found: bool)
        ensures
            found == self@.contains_key(name@),
    {
        self.dictionary_.contains_key(name.as_str())
    }
}

proof fn reveal_reserved_lexemes()
    ensures
        "="@.len() == 1 && "="@[0] == '=',
        "<"@.len() == 1 && "<"@[0] == '<',
        "+"@.len() == 1 && "+"@[0] == '+',
        "-"@.len() == 1 && "-"@[0] == '-',
        "*"@.len() == 1 && "*"@[0] == '*',
        "&&"@.len() == 2 && "&&"@[0] == '&' && "&&"@[1] == '&',
        "!"@.len() == 1 && "!"@[0] == '!',
        "."@.len() == 1 && "."@[0] == '.',
        "("@.len() == 1 && "("@[0] == '(',
        ")"@.len() == 1 && ")"@[0] == ')',
        "["@.len() == 1 && "["@[0] == '[',
        "]"@.len() == 1 && "]"@[0] == ']',
        "{"@.len() == 1 && "{"@[0] == '{',
        "}"@.len() == 1 && "}"@[0] == '}',
        ","@.len() == 1 && ","@[0] == ',',
        ";"@.len() == 1 && ";"@[0] == ';',
        "class"@.len() == 5 && "class"@[0] == 'c' && "class"@[1] == 'l' && "class"@[2] == 'a' && "class"@[3] == 's',
        "public"@.len() == 6 && "public"@[0] == 'p' && "public"@[1] == 'u' && "public"@[2] == 'b' && "public"@[3] == 'l',
        "static"@.len() == 6 && "static"@[0] == 's' && "static"@[1] == 't' && "static"@[2] == 'a' && "static"@[3] == 't',
        "void"@.len() == 4 && "void"@[0] == 'v' && "void"@[1] == 'o' && "void"@[2] == 'i' && "void"@[3] == 'd',
        "main"@.len() == 4 && "main"@[0] == 'm' && "main"@[1] == 'a' && "main"@[2] == 'i' && "main"@[3] == 'n',
        "extends"@.len() == 7 && "extends"@[0] == 'e' && "extends"@[1] == 'x' && "extends"@[2] == 't' && "extends"@[3] == 'e',
        "return"@.len() == 6 && "return"@[0] == 'r' && "return"@[1] == 'e' && "return"@[2] == 't' && "return"@[3] == 'u',
        "if"@.len() == 2 && "if"@[0] == 'i' && "if"@[1] == 'f',
        "else"@.len() == 4 && "else"@[0] == 'e' && "else"@[1] == 'l' && "else"@[2] == 's' && "else"@[3] == 'e',
        "while"@.len() == 5 && "while"@[0] == 'w' && "while"@[1] == 'h' && "while"@[2] == 'i' && "while"@[3] == 'l',
        "for"@.len() == 3 && "for"@[0] == 'f' && "for"@[1] == 'o' && "for"@[2] == 'r',
        "System.out.println"@.len() == 18 && "System.out.println"@[0] == 'S' && "System.out.println"@[1] == 'y' && "System.out.println"@[2] == 's' && "System.out.println"@[3] == 't',
        "length"@.len() == 6 && "length"@[0] == 'l' && "length"@[1] == 'e' && "length"@[2] == 'n' && "length"@[3] == 'g',
        "this"@.len() == 4 && "this"@[0] == 't' && "this"@[1] == 'h' && "this"@[2] == 'i' && "this"@[3] == 's',
        "new"@.len() == 3 && "new"@[0] == 'n' && "new"@[1] == 'e' && "new"@[2] == 'w',
        "true"@.len() == 4 && "true"@[0] == 't' && "true"@[1] == 'r' && "true"@[2] == 'u' && "true"@[3] == 'e',
        "false"@.len() == 5 && "false"@[0] == 'f' && "false"@[1] == 'a' && "false"@[2] == 'l' && "false"@[3] == 's',
        "int"@.len() == 3 && "int"@[0] == 'i' && "int"@[1] == 'n' && "int"@[2] == 't',
        "char"@.len() == 4 && "char"@[0] == 'c' && "char"@[1] == 'h' && "char"@[2] == 'a' && "char"@[3] == 'r',
        "String"@.len() == 6 && "String"@[0] == 'S' && "String"@[1] == 't' && "String"@[2] == 'r' && "String"@[3] == 'i',
        "boolean"@.len() == 7 && "boolean"@[0] == 'b' && "boolean"@[1] == 'o' && "boolean"@[2] == 'o' && "boolean"@[3] == 'l',
{
    reveal_strlit("=");
    reveal_strlit("<");
    reveal_strlit("+");
    reveal_strlit("-");
    reveal_strlit("*");
    reveal_strlit("&&");
    reveal_strlit("!");
    reveal_strlit(".");
    reveal_strlit("(");
    reveal_strlit(")");
    reveal_strlit("[");
    reveal_strlit("]");
    reveal_strlit("{");
    reveal_strlit("}");
    reveal_strlit(",");
    reveal_strlit(";");
    reveal_strlit("class");
    reveal_strlit("public");
    reveal_strlit("static");
    reveal_strlit("void");
    reveal_strlit("main");
    reveal_strlit("extends");
    reveal_strlit("return");
    reveal_strlit("if");
    reveal_strlit("else");
    reveal_strlit("while");
    reveal_strlit("for");
    reveal_strlit("System.out.println");
    reveal_strlit("length");
    reveal_strlit("this");
    reveal_strlit("new");
    reveal_strlit("true");
    reveal_strlit("false");
    reveal_strlit("int");
    reveal_strlit("char");
    reveal_strlit("String");
    reveal_strlit("boolean");
}

/// Looking up a reserved lexeme yields its meaning, its category and its precedence; the table
/// holds these lexemes and no other, so that every other name has the default entry.
pub proof fn lemma_reserved_words()
    ensures
        reserved_words().dom() == reserved_lexemes(),
        lookup_entry(reserved_words(), "="@) == (TokenValue::ASSIGN, TokenType::OPERATOR, 0i32),
        lookup_entry(reserved_words(), "<"@) == (TokenValue::LT, TokenType::OPERATOR, 2i32),
        lookup_entry(reserved_words(), "+"@) == (TokenValue::ADD, TokenType::OPERATOR, 10i32),
        lookup_entry(reserved_words(), "-"@) == (TokenValue::SUB, TokenType::OPERATOR, 10i32),
        lookup_entry(reserved_words(), "*"@) == (TokenValue::MULTI, TokenType::OPERATOR, 20i32),
        lookup_entry(reserved_words(), "&&"@) == (TokenValue::AND, TokenType::OPERATOR, 20i32),
        lookup_entry(reserved_words(), "!"@) == (TokenValue::NOT, TokenType::OPERATOR, 40i32),
        lookup_entry(reserved_words(), "."@) == (TokenValue::DOT, TokenType::OPERATOR, 60i32),
        lookup_entry(reserved_words(), "("@) == (TokenValue::LPAREN, TokenType::DELIMITER, -1i32),
        lookup_entry(reserved_words(), ")"@) == (TokenValue::RPAREN, TokenType::DELIMITER, -1i32),
        lookup_entry(reserved_words(), "["@) == (TokenValue::LBRACK, TokenType::DELIMITER, -1i32),
        lookup_entry(reserved_words(), "]"@) == (TokenValue::RBRACK, TokenType::DELIMITER, -1i32),
        lookup_entry(reserved_words(), "{"@) == (TokenValue::LBRACE, TokenType::DELIMITER, -1i32),
        lookup_entry(reserved_words(), "}"@) == (TokenValue::RBRACE, TokenType::DELIMITER, -1i32),
        lookup_entry(reserved_words(), ","@) == (TokenValue::COMMA, TokenType::DELIMITER, -1i32),
        lookup_entry(reserved_words(), ";"@) == (TokenValue::SEMICOLON, TokenType::DELIMITER, -1i32),
        lookup_entry(reserved_words(), "class"@) == (TokenValue::CLASS, TokenType::KEYWORD, -1i32),
        lookup_entry(reserved_words(), "public"@) == (TokenValue::PUBLIC, TokenType::KEYWORD, -1i32),
        lookup_entry(reserved_words(), "static"@) == (TokenValue::STATIC, TokenType::KEYWORD, -1i32),
        lookup_entry(reserved_words(), "void"@) == (TokenValue::VOID, TokenType::KEYWORD, -1i32),
        lookup_entry(reserved_words(), "main"@) == (TokenValue::MAIN, TokenType::KEYWORD, -1i32),
        lookup_entry(reserved_words(), "extends"@) == (TokenValue::EXTENDS, TokenType::KEYWORD, -1i32),
        lookup_entry(reserved_words(), "return"@) == (TokenValue::RETURN, TokenType::KEYWORD, -1i32),
        lookup_entry(reserved_words(), "if"@) == (TokenValue::IF, TokenType::KEYWORD, -1i32),
        lookup_entry(reserved_words(), "else"@) == (TokenValue::ELSE, TokenType::KEYWORD, -1i32),
        lookup_entry(reserved_words(), "while"@) == (TokenValue::WHILE, TokenType::KEYWORD, -1i32),
        lookup_entry(reserved_words(), "for"@) == (TokenValue::FOR, TokenType::KEYWORD, -1i32),
        lookup_entry(reserved_words(), "System.out.println"@) == (TokenValue::PRINT, TokenType::KEYWORD, -1i32),
        lookup_entry(reserved_words(), "length"@) == (TokenValue::LENGTH, TokenType::KEYWORD, -1i32),
        lookup_entry(reserved_words(), "this"@) == (TokenValue::THIS, TokenType::KEYWORD, -1i32),
        lookup_entry(reserved_words(), "new"@) == (TokenValue::NEW, TokenType::KEYWORD, -1i32),
        lookup_entry(reserved_words(), "true"@) == (TokenValue::TRUE, TokenType::BOOLEAN_LITERAL, -1i32),
        lookup_entry(reserved_words(), "false"@) == (TokenValue::FALSE, TokenType::BOOLEAN_LITERAL, -1i32),
        lookup_entry(reserved_words(), "int"@) == (TokenValue::INT, TokenType::TYPE, -1i32),
        lookup_entry(reserved_words(), "char"@) == (TokenValue::CHAR, TokenType::TYPE, -1i32),
        lookup_entry(reserved_words(), "String"@) == (TokenValue::STRING, TokenType::TYPE, -1i32),
        lookup_entry(reserved_words(), "boolean"@) == (TokenValue::BOOL, TokenType::TYPE, -1i32),
        forall|name: Seq<char>|
            !reserved_lexemes().contains(name) ==> #[trigger] lookup_entry(reserved_words(), name)
                == default_entry(),
{
    reveal_reserved_lexemes();
    assert(reserved_words().dom() =~= reserved_lexemes());
}

/// Only an operator has a precedence: every entry of another category carries -1.
pub proof fn lemma_precedence_of_operators(name: Seq<char>)
    ensures
        lookup_entry(reserved_words(), name).1 != TokenType::OPERATOR ==> lookup_entry(
            reserved_words(),
            name,
        ).2 == -1,
        lookup_entry(reserved_words(), name).1 == TokenType::OPERATOR ==> lookup_entry(
            reserved_words(),
            name,
        ).2 >= 0,
{
}

} // verus!
