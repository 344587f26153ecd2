//! Tokens of the guarded-command language and the keyword table.
use vstd::prelude::*;

verus! {

/// One token with the line on which it ends.
#[derive(Debug, PartialEq)]
pub struct Token {
    pub typ: TokenType,
    pub line: usize,
}

/// The kinds of token: keywords, operators and punctuation, identifiers and
/// numbers with their spelling, end of input and an unsupported character.
#[derive(Debug, PartialEq)]
pub enum TokenType {
    VAR,
    RAV,
    PRINT,
    IF,
    FI,
    DO,
    OD,
    ELSE,
    FA,
    AF,
    TO,
    ST,
    ASSIGN,
    LPAREN,
    RPAREN,
    PLUS,
    MINUS,
    TIMES,
    DIVIDE,
    SQUARE,
    SQRT,
    EQ,
    NE,
    LT,
    GT,
    LE,
    GE,
    ARROW,
    BOX,
    ID(String),
    NUM(String),
    EOF,
    UNSUP(char),
}

/// A token kind as a mathematical value: spellings are character sequences.
pub enum Lexeme {
    VAR,
    RAV,
    PRINT,
    IF,
    FI,
    DO,
    OD,
    ELSE,
    FA,
    AF,
    TO,
    ST,
    ASSIGN,
    LPAREN,
    RPAREN,
    PLUS,
    MINUS,
    TIMES,
    DIVIDE,
    SQUARE,
    SQRT,
    EQ,
    NE,
    LT,
    GT,
    LE,
    GE,
    ARROW,
    BOX,
    ID(Seq<char>),
    NUM(Seq<char>),
    EOF,
    UNSUP(char),
}

/// A token as a mathematical value.
pub struct TokenView {
    pub kind: Lexeme,
    pub line: nat,
}

impl View for TokenType {
    type V = Lexeme;

    open spec fn view(&self) -> Lexeme {
        match self {
            TokenType::VAR => Lexeme::VAR,
            TokenType::RAV => Lexeme::RAV,
            TokenType::PRINT => Lexeme::PRINT,
            TokenType::IF => Lexeme::IF,
            TokenType::FI => Lexeme::FI,
            TokenType::DO => Lexeme::DO,
            TokenType::OD => Lexeme::OD,
            TokenType::ELSE => Lexeme::ELSE,
            TokenType::FA => Lexeme::FA,
            TokenType::AF => Lexeme::AF,
            TokenType::TO => Lexeme::TO,
            TokenType::ST => Lexeme::ST,
            TokenType::ASSIGN => Lexeme::ASSIGN,
            TokenType::LPAREN => Lexeme::LPAREN,
            TokenType::RPAREN => Lexeme::RPAREN,
            TokenType::PLUS => Lexeme::PLUS,
            TokenType::MINUS => Lexeme::MINUS,
            TokenType::TIMES => Lexeme::TIMES,
            TokenType::DIVIDE => Lexeme::DIVIDE,
            TokenType::SQUARE => Lexeme::SQUARE,
            TokenType::SQRT => Lexeme::SQRT,
            TokenType::EQ => Lexeme::EQ,
            TokenType::NE => Lexeme::NE,
            TokenType::LT => Lexeme::LT,
            TokenType::GT => Lexeme::GT,
            TokenType::LE => Lexeme::LE,
            TokenType::GE => Lexeme::GE,
            TokenType::ARROW => Lexeme::ARROW,
            TokenType::BOX => Lexeme::BOX,
            TokenType::ID(s) => Lexeme::ID(s@),
            TokenType::NUM(s) => Lexeme::NUM(s@),
            TokenType::EOF => Lexeme::EOF,
            TokenType::UNSUP(c) => Lexeme::UNSUP(*c),
        }
    }
}

impl View for Token {
    type V = TokenView;

    open spec fn view(&self) -> TokenView {
        TokenView { kind: self.typ@, line: self.line as nat }
    }
}

/// A token kind without the spelling or character it may carry.
#[derive(Debug, Clone, Copy, PartialEq, Eq, Structural)]
pub enum Kind {
    VAR,
    RAV,
    PRINT,
    IF,
    FI,
    DO,
    OD,
    ELSE,
    FA,
    AF,
    TO,
    ST,
    ASSIGN,
    LPAREN,
    RPAREN,
    PLUS,
    MINUS,
    TIMES,
    DIVIDE,
    SQUARE,
    SQRT,
    EQ,
    NE,
    LT,
    GT,
    LE,
    GE,
    ARROW,
    BOX,
    ID,
    NUM,
    EOF,
    UNSUP,
}

/// The kind of a token, without its spelling.
pub open spec fn kind_of(l: Lexeme) -> Kind {
    match l {
        Lexeme::VAR => Kind::VAR,
        Lexeme::RAV => Kind::RAV,
        Lexeme::PRINT => Kind::PRINT,
        Lexeme::IF => Kind::IF,
        Lexeme::FI => Kind::FI,
        Lexeme::DO => Kind::DO,
        Lexeme::OD => Kind::OD,
        Lexeme::ELSE => Kind::ELSE,
        Lexeme::FA => Kind::FA,
        Lexeme::AF => Kind::AF,
        Lexeme::TO => Kind::TO,
        Lexeme::ST => Kind::ST,
        Lexeme::ASSIGN => Kind::ASSIGN,
        Lexeme::LPAREN => Kind::LPAREN,
        Lexeme::RPAREN => Kind::RPAREN,
        Lexeme::PLUS => Kind::PLUS,
        Lexeme::MINUS => Kind::MINUS,
        Lexeme::TIMES => Kind::TIMES,
        Lexeme::DIVIDE => Kind::DIVIDE,
        Lexeme::SQUARE => Kind::SQUARE,
        Lexeme::SQRT => Kind::SQRT,
        Lexeme::EQ => Kind::EQ,
        Lexeme::NE => Kind::NE,
        Lexeme::LT => Kind::LT,
        Lexeme::GT => Kind::GT,
        Lexeme::LE => Kind::LE,
        Lexeme::GE => Kind::GE,
        Lexeme::ARROW => Kind::ARROW,
        Lexeme::BOX => Kind::BOX,
        Lexeme::ID(_) => Kind::ID,
        Lexeme::NUM(_) => Kind::NUM,
        Lexeme::EOF => Kind::EOF,
        Lexeme::UNSUP(_) => Kind::UNSUP,
    }
}

impl TokenType {
    /// The kind of this token, without its spelling.
    pub fn kind(&self) -> (r: Kind)
        ensures
            r == kind_of(self@),
    {
        match self {
            TokenType::VAR => Kind::VAR,
            TokenType::RAV => Kind::RAV,
            TokenType::PRINT => Kind::PRINT,
            TokenType::IF => Kind::IF,
            TokenType::FI => Kind::FI,
            TokenType::DO => Kind::DO,
            TokenType::OD => Kind::OD,
            TokenType::ELSE => Kind::ELSE,
            TokenType::FA => Kind::FA,
            TokenType::AF => Kind::AF,
            TokenType::TO => Kind::TO,
            TokenType::ST => Kind::ST,
            TokenType::ASSIGN => Kind::ASSIGN,
            TokenType::LPAREN => Kind::LPAREN,
            TokenType::RPAREN => Kind::RPAREN,
            TokenType::PLUS => Kind::PLUS,
            TokenType::MINUS => Kind::MINUS,
            TokenType::TIMES => Kind::TIMES,
            TokenType::DIVIDE => Kind::DIVIDE,
            TokenType::SQUARE => Kind::SQUARE,
            TokenType::SQRT => Kind::SQRT,
            TokenType::EQ => Kind::EQ,
            TokenType::NE => Kind::NE,
            TokenType::LT => Kind::LT,
            TokenType::GT => Kind::GT,
            TokenType::LE => Kind::LE,
            TokenType::GE => Kind::GE,
            TokenType::ARROW => Kind::ARROW,
            TokenType::BOX => Kind::BOX,
            TokenType::ID(_) => Kind::ID,
            TokenType::NUM(_) => Kind::NUM,
            TokenType::EOF => Kind::EOF,
            TokenType::UNSUP(_) => Kind::UNSUP,
        }
    }
}

/// The keyword spelled by `w`, if any.
pub open spec fn keyword(w: Seq<char>) -> Option<Lexeme> {
    if w == seq!['v', 'a', 'r'] {
        Some(Lexeme::VAR)
    } else if w == seq!['r', 'a', 'v'] {
        Some(Lexeme::RAV)
    } else if w == seq!['p', 'r', 'i', 'n', 't'] {
        Some(Lexeme::PRINT)
    } else if w == seq!['i', 'f'] {
        Some(Lexeme::IF)
    } else if w == seq!['f', 'i'] {
        Some(Lexeme::FI)
    } else if w == seq!['d', 'o'] {
        Some(Lexeme::DO)
    } else if w == seq!['o', 'd'] {
        Some(Lexeme::OD)
    } else if w == seq!['e', 'l', 's', 'e'] {
        Some(Lexeme::ELSE)
    } else if w == seq!['f', 'a'] {
        Some(Lexeme::FA)
    } else if w == seq!['a', 'f'] {
        Some(Lexeme::AF)
    } else if w == seq!['t', 'o'] {
        Some(Lexeme::TO)
    } else if w == seq!['s', 't'] {
        Some(Lexeme::ST)
    } else {
        None
    }
}

/// The token kind of a word: its keyword, or an identifier spelled `w`.
pub open spec fn word_lexeme(w: Seq<char>) -> Lexeme {
    match keyword(w) {
        Some(k) => k,
        None => Lexeme::ID(w),
    }
}

/// The characters of `s`, in order.
pub fn chars_of(s: &str) -> (r: Vec<char>)
    ensures
        r@ == s@,
{
    let mut v: Vec<char> = Vec::new();
    for c in it: s.chars()
        invariant
            v@ == it.seq().take(it.index() as int),
            it.seq() == s@,
    {
        v.push(c);
    }
    assert(v@ =~= s@);
    v
}

/// Relies on `String: FromIterator<char>`: the string made of the given
/// characters, in order.
#[verifier::external_body]
pub(crate) fn string_of(v: &Vec<char>) -> (r: String)
    ensures
        r@ == v@,
{
    v.iter().collect()
}

fn spells(w: &Vec<char>, k: &[char]) -> (r: bool)
    ensures
        r == (w@ == k@),
{
    if w.len() != k.len() {
        return false;
    }
    let mut i: usize = 0;
    while i < w.len()
        invariant
            w.len() == k@.len(),
            0 <= i <= w.len(),
            forall|j: int| 0 <= j < i ==> w@[j] == k@[j],
        decreases w.len() - i,
    {
        if w[i] != k[i] {
            return false;
        }
        i += 1;
    }
    assert(w@ =~= k@);
    true
}

/// The keyword spelled by the characters `w`, if any.
pub fn keyword_of(w: &Vec<char>) -> (r: Option<TokenType>)
    ensures
        match r {
            Some(t) => keyword(w@) == Some(t@),
            None => keyword(w@) is None,
        },
{
    if spells(w, &['v', 'a', 'r']) {
        Some(TokenType::VAR)
    } else if spells(w, &['r', 'a', 'v']) {
        Some(TokenType::RAV)
    } else if spells(w, &['p', 'r', 'i', 'n', 't']) {
        Some(TokenType::PRINT)
    } else if spells(w, &['i', 'f']) {
        Some(TokenType::IF)
    } else if spells(w, &['f', 'i']) {
        Some(TokenType::FI)
    } else if spells(w, &['d', 'o']) {
        Some(TokenType::DO)
    } else if spells(w, &['o', 'd']) {
        Some(TokenType::OD)
    } else if spells(w, &['e', 'l', 's', 'e']) {
        Some(TokenType::ELSE)
    } else if spells(w, &['f', 'a']) {
        Some(TokenType::FA)
    } else if spells(w, &['a', 'f']) {
        Some(TokenType::AF)
    } else if spells(w, &['t', 'o']) {
        Some(TokenType::TO)
    } else if spells(w, &['s', 't']) {
        Some(TokenType::ST)
    } else {
        None
    }
}

/// The token kind for a word: its keyword, or an identifier carrying `id`.
pub fn type_for_id(id: String) -> (r: TokenType)
    ensures
        r@ == word_lexeme(id@),
{
    let w = chars_of(id.as_str());
    match keyword_of(&w) {
        Some(k) => k,
        None => TokenType::ID(id),
    }
}

} // verus!
