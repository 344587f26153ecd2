//! The lexical scanner: source characters to tokens, one token per call.
use vstd::prelude::*;
use crate::token::{keyword_of, string_of, word_lexeme, chars_of, Lexeme, Token, TokenType, TokenView};

verus! {

/// Whether `c` has the Unicode `Alphabetic` property.
pub uninterp spec fn alphabetic(c: char) -> bool;

/// Whether `c` is a Unicode numeric character.
pub uninterp spec fn numeric(c: char) -> bool;

/// Relies on `char::is_alphabetic`, which depends on the character alone.
#[verifier::external_body]
fn is_alpha(c: char) -> (r: bool)
    ensures
        r == alphabetic(c),
{
    c.is_alphabetic()
}

/// Relies on `char::is_numeric`, which depends on the character alone.
#[verifier::external_body]
fn is_digit(c: char) -> (r: bool)
    ensures
        r == numeric(c),
{
    c.is_numeric()
}

fn in_class(c: char, alpha: bool) -> (r: bool)
    ensures
        r == if alpha {
            alphabetic(c)
        } else {
            numeric(c)
        },
{
    if alpha {
        is_alpha(c)
    } else {
        is_digit(c)
    }
}

/// A mandatory two-character symbol whose second character did not follow.
#[derive(Debug, PartialEq)]
pub struct LexError {
    pub line: usize,
    pub expected: char,
    pub found: Option<char>,
}

/// The scanner as a mathematical value: the text, the index of the next
/// character to read, and the current line.
pub struct ScannerView {
    pub text: Seq<char>,
    pub pos: nat,
    pub line: nat,
}

/// What one scan yields, and where it leaves the cursor and line counter.
pub struct Scanned {
    pub result: Result<TokenView, LexError>,
    pub pos: nat,
    pub line: nat,
}

/// Symbols of one character that never combine with the next.
pub open spec fn single(c: char) -> Option<Lexeme> {
    if c == '(' {
        Some(Lexeme::LPAREN)
    } else if c == ')' {
        Some(Lexeme::RPAREN)
    } else if c == '=' {
        Some(Lexeme::EQ)
    } else if c == '+' {
        Some(Lexeme::PLUS)
    } else if c == '*' {
        Some(Lexeme::TIMES)
    } else if c == '@' {
        Some(Lexeme::SQRT)
    } else if c == '^' {
        Some(Lexeme::SQUARE)
    } else {
        None
    }
}

/// Symbols that may combine with a following character: the character that
/// completes the pair, the kind alone and the kind of the pair.
pub open spec fn pair(c: char) -> Option<(char, Lexeme, Lexeme)> {
    if c == '>' {
        Some(('=', Lexeme::GT, Lexeme::LE))
    } else if c == '-' {
        Some(('>', Lexeme::MINUS, Lexeme::ARROW))
    } else if c == '<' {
        Some(('=', Lexeme::LT, Lexeme::GE))
    } else if c == '\\' {
        Some(('=', Lexeme::DIVIDE, Lexeme::NE))
    } else {
        None
    }
}

/// Symbols that must be followed by a given character: that character and
/// the kind of the pair.
pub open spec fn mandatory(c: char) -> Option<(char, Lexeme)> {
    if c == ':' {
        Some(('=', Lexeme::ASSIGN))
    } else if c == '[' {
        Some((']', Lexeme::BOX))
    } else {
        None
    }
}

/// The end of the run of alphabetic (or, with `alpha` false, numeric)
/// characters that starts at `i`.
pub open spec fn run_end(s: Seq<char>, i: nat, alpha: bool) -> nat
    decreases s.len() - i,
{
    if i < s.len() && (if alpha {
        alphabetic(s[i as int])
    } else {
        numeric(s[i as int])
    }) {
        run_end(s, i + 1, alpha)
    } else {
        i
    }
}

/// A token of kind `kind` on `line`, with the cursor left at `pos`.
pub open spec fn token_at(kind: Lexeme, line: nat, pos: nat) -> Scanned {
    Scanned { result: Ok(TokenView { kind, line }), pos, line }
}

/// The next token of `s` from index `pos` on line `line`.
pub open spec fn next_token(s: Seq<char>, pos: nat, line: nat) -> Scanned
    decreases s.len() - pos, 1nat,
{
    if pos >= s.len() {
        token_at(Lexeme::EOF, line, pos)
    } else {
        let c = s[pos as int];
        let has_next = pos + 1 < s.len();
        if c == '#' {
            skip_comment(s, pos + 1, line)
        } else if c == ' ' || c == '\t' {
            next_token(s, pos + 1, line)
        } else if c == '\n' {
            next_token(s, pos + 1, line + 1)
        } else if single(c) is Some {
            token_at(single(c)->0, line, pos + 1)
        } else if pair(c) is Some {
            let (next, one, two) = pair(c)->0;
            if has_next && s[pos + 1int] == next {
                token_at(two, line, pos + 2)
            } else {
                token_at(one, line, pos + 1)
            }
        } else if mandatory(c) is Some {
            let (next, kind) = mandatory(c)->0;
            if has_next && s[pos + 1int] == next {
                token_at(kind, line, pos + 2)
            } else {
                let found = if has_next {
                    Some(s[pos + 1int])
                } else {
                    None
                };
                Scanned {
                    result: Err(LexError { line: line as usize, expected: next, found }),
                    pos: pos + 1,
                    line,
                }
            }
        } else if alphabetic(c) {
            let end = run_end(s, pos, true);
            token_at(word_lexeme(s.subrange(pos as int, end as int)), line, end)
        } else if numeric(c) {
            let end = run_end(s, pos, false);
            token_at(Lexeme::NUM(s.subrange(pos as int, end as int)), line, end)
        } else {
            token_at(Lexeme::UNSUP(c), line, pos + 1)
        }
    }
}

/// Scanning inside a line comment at index `pos`: everything up to the next
/// newline is skipped, and that newline counts as a line.
pub open spec fn skip_comment(s: Seq<char>, pos: nat, line: nat) -> Scanned
    decreases s.len() - pos, 0nat,
{
    if pos >= s.len() {
        token_at(Lexeme::EOF, line, s.len())
    } else if s[pos as int] == '\n' {
        next_token(s, pos + 1, line + 1)
    } else {
        skip_comment(s, pos + 1, line)
    }
}

/// A cursor and line counter that fit the text.
pub open spec fn position_ok(s: Seq<char>, pos: nat, line: nat) -> bool {
    &&& pos <= s.len()
    &&& 1 <= line <= pos + 1
    &&& s.len() < usize::MAX
}

/// Whether a scan result is the end-of-input token.
pub open spec fn is_eof(r: Result<TokenView, LexError>) -> bool {
    match r {
        Ok(t) => t.kind is EOF,
        Err(_) => false,
    }
}

/// A scan result as a mathematical value.
pub open spec fn result_view(r: Result<Token, LexError>) -> Result<TokenView, LexError> {
    match r {
        Ok(t) => Ok(t@),
        Err(e) => Err(e),
    }
}

pub proof fn lemma_run_end(s: Seq<char>, i: nat, alpha: bool)
    requires
        i <= s.len(),
    ensures
        i <= run_end(s, i, alpha) <= s.len(),
    decreases s.len() - i,
{
    if i < s.len() && (if alpha {
        alphabetic(s[i as int])
    } else {
        numeric(s[i as int])
    }) {
        lemma_run_end(s, i + 1, alpha);
    }
}

/// A scan never moves the cursor back or past the end, never lowers the line
/// counter, and consumes at least one character for any token but end of input.
pub proof fn lemma_next_token_bounds(s: Seq<char>, pos: nat, line: nat)
    requires
        position_ok(s, pos, line),
    ensures
        ({
            let r = next_token(s, pos, line);
            &&& position_ok(s, r.pos, r.line)
            &&& pos <= r.pos
            &&& line <= r.line
            &&& r.result is Ok && !is_eof(r.result) ==> pos < r.pos
            &&& is_eof(r.result) ==> r.pos == s.len()
            &&& r.result is Ok ==> r.result->Ok_0.line == r.line
        }),
    decreases s.len() - pos, 1nat,
{
    if pos < s.len() {
        let c = s[pos as int];
        if c == '#' {
            lemma_skip_comment_bounds(s, pos + 1, line);
        } else if c == ' ' || c == '\t' {
            lemma_next_token_bounds(s, pos + 1, line);
        } else if c == '\n' {
            lemma_next_token_bounds(s, pos + 1, line + 1);
        } else if single(c) is Some || pair(c) is Some || mandatory(c) is Some {
        } else if alphabetic(c) {
            lemma_run_end(s, pos, true);
            lemma_run_end(s, pos + 1, true);
        } else if numeric(c) {
            lemma_run_end(s, pos, false);
            lemma_run_end(s, pos + 1, false);
        }
    }
}

pub proof fn lemma_skip_comment_bounds(s: Seq<char>, pos: nat, line: nat)
    requires
        position_ok(s, pos, line),
    ensures
        ({
            let r = skip_comment(s, pos, line);
            &&& position_ok(s, r.pos, r.line)
            &&& pos <= r.pos
            &&& line <= r.line
            &&& r.result is Ok && !is_eof(r.result) ==> pos < r.pos
            &&& is_eof(r.result) ==> r.pos == s.len()
            &&& r.result is Ok ==> r.result->Ok_0.line == r.line
        }),
    decreases s.len() - pos, 0nat,
{
    if pos < s.len() {
        if s[pos as int] == '\n' {
            lemma_next_token_bounds(s, pos + 1, line + 1);
        } else {
            lemma_skip_comment_bounds(s, pos + 1, line);
        }
    }
}

/// Once a scan has returned end of input, every later scan returns it again,
/// on the same line, and leaves the scanner as it was.
pub proof fn lemma_eof_is_final(s: Seq<char>, pos: nat, line: nat)
    requires
        position_ok(s, pos, line),
        is_eof(next_token(s, pos, line).result),
    ensures
        ({
            let first = next_token(s, pos, line);
            next_token(s, first.pos, first.line) == first
        }),
{
    lemma_next_token_bounds(s, pos, line);
}

/// A line comment that ends in a newline yields no token, and its newline
/// advances the line counter exactly once.
pub proof fn lemma_comment_skipped(s: Seq<char>, pos: nat, line: nat, newline: nat)
    requires
        pos < newline < s.len(),
        s[pos as int] == '#',
        s[newline as int] == '\n',
        forall|i: int| pos < i < newline ==> s[i] != '\n',
    ensures
        next_token(s, pos, line) == next_token(s, newline + 1, line + 1),
{
    lemma_comment_rest(s, pos + 1, line, newline);
}

proof fn lemma_comment_rest(s: Seq<char>, i: nat, line: nat, newline: nat)
    requires
        i <= newline < s.len(),
        s[newline as int] == '\n',
        forall|j: int| i <= j < newline ==> s[j] != '\n',
    ensures
        skip_comment(s, i, line) == next_token(s, newline + 1, line + 1),
    decreases newline - i,
{
    if i < newline {
        lemma_comment_rest(s, i + 1, line, newline);
    }
}

/// A symbol that may start a two-character operator, followed by anything but
/// the character that completes it (or by nothing), scans as the symbol alone
/// and consumes only that one character: the next scan starts at the
/// character that followed it.
pub proof fn lemma_lookahead_kept(s: Seq<char>, pos: nat, line: nat)
    requires
        pos < s.len(),
        pair(s[pos as int]) is Some,
        ({
            let (next, _, _) = pair(s[pos as int])->0;
            pos + 1 == s.len() || s[pos + 1int] != next
        }),
    ensures
        ({
            let (_, one, _) = pair(s[pos as int])->0;
            next_token(s, pos, line) == token_at(one, line, pos + 1)
        }),
{
}

/// Converts source text to tokens. The cursor `pos` indexes the next unread
/// character; looking ahead reads `chars[pos]` without moving it, so a
/// character looked at and not taken is read again by the next scan.
pub struct Scanner {
    chars: Vec<char>,
    pos: usize,
    line: usize,
}

impl View for Scanner {
    type V = ScannerView;

    closed spec fn view(&self) -> ScannerView {
        ScannerView { text: self.chars@, pos: self.pos as nat, line: self.line as nat }
    }
}

impl Scanner {
    pub open spec fn wf(&self) -> bool {
        position_ok(self@.text, self@.pos, self@.line)
    }

    /// A scanner at the start of `text`, on line 1.
    pub fn new(text: &str) -> (r: Scanner)
        requires
            text@.len() < usize::MAX,
        ensures
            r.wf(),
            r@ == (ScannerView { text: text@, pos: 0, line: 1 }),
    {
        Scanner { chars: chars_of(text), pos: 0, line: 1 }
    }

    /// Takes the next character, if any.
    fn next_char(&mut self) -> (r: Option<char>)
        requires
            old(self).wf(),
        ensures
            final(self).wf(),
            final(self)@.text == old(self)@.text,
            final(self)@.line == old(self)@.line,
            old(self)@.pos < old(self)@.text.len() ==> r == Some(old(self)@.text[old(self)@.pos as int])
                && final(self)@.pos == old(self)@.pos + 1,
            old(self)@.pos >= old(self)@.text.len() ==> r is None && final(self)@.pos == old(self)@.pos,
    {
        if self.pos < self.chars.len() {
            let c = self.chars[self.pos];
            self.pos = self.pos + 1;
            Some(c)
        } else {
            None
        }
    }

    /// The next character, left in place.
    fn peek(&self) -> (r: Option<char>)
        ensures
            self@.pos < self@.text.len() ==> r == Some(self@.text[self@.pos as int]),
            self@.pos >= self@.text.len() ==> r is None,
    {
        if self.pos < self.chars.len() {
            Some(self.chars[self.pos])
        } else {
            None
        }
    }

    /// Returns the next token. Unsupported characters and end of input are
    /// tokens; only a `:` or `[` without its second character is an error.
    pub fn scan(&mut self) -> (r: Result<Token, LexError>)
        requires
            old(self).wf(),
        ensures
            final(self).wf(),
            final(self)@.text == old(self)@.text,
            ({
                let st = next_token(old(self)@.text, old(self)@.pos, old(self)@.line);
                &&& result_view(r) == st.result
                &&& final(self)@.pos == st.pos
                &&& final(self)@.line == st.line
            }),
    {
        let ghost s = self@.text;
        let ghost goal = next_token(s, self@.pos, self@.line);
        loop
            invariant
                self.wf(),
                self@.text == s,
                s == old(self)@.text,
                goal == next_token(old(self)@.text, old(self)@.pos, old(self)@.line),
                next_token(s, self@.pos, self@.line) == goal,
            decreases s.len() - self@.pos,
        {
            let ghost p0 = self@.pos;
            let c = match self.next_char() {
                None => {
                    return Ok(Token { typ: TokenType::EOF, line: self.line });
                },
                Some(c) => c,
            };
            if c == '#' {
                assert(skip_comment(s, self@.pos, self@.line) == goal);
                loop
                    invariant_except_break
                        skip_comment(s, self@.pos, self@.line) == goal,
                    invariant
                        self.wf(),
                        self@.text == s,
                        s == old(self)@.text,
                        goal == next_token(old(self)@.text, old(self)@.pos, old(self)@.line),
                        p0 < self@.pos,
                    ensures
                        self.wf(),
                        self@.text == s,
                        p0 < self@.pos,
                        1 <= self@.line <= self@.pos,
                        next_token(s, self@.pos, (self@.line + 1) as nat) == goal,
                    decreases s.len() - self@.pos,
                {
                    match self.next_char() {
                        None => {
                            return Ok(Token { typ: TokenType::EOF, line: self.line });
                        },
                        Some(d) => {
                            if d == '\n' {
                                break;
                            }
                        },
                    }
                }
                self.line = self.line + 1;
            } else if c == ' ' || c == '\t' {
            } else if c == '\n' {
                self.line = self.line + 1;
            } else {
                let line = self.line;
                let typ = match self.process_special(c) {
                    Some(Ok(t)) => t,
                    Some(Err(e)) => {
                        return Err(e);
                    },
                    None => {
                        if is_alpha(c) {
                            let w = self.build_val(c, true);
                            match keyword_of(&w) {
                                Some(k) => k,
                                None => TokenType::ID(string_of(&w)),
                            }
                        } else if is_digit(c) {
                            let w = self.build_val(c, false);
                            TokenType::NUM(string_of(&w))
                        } else {
                            TokenType::UNSUP(c)
                        }
                    },
                };
                return Ok(Token { typ, line });
            }
        }
    }

    /// Resolves an operator or punctuation symbol `c`, just taken; `None`
    /// where `c` is no such symbol.
    fn process_special(&mut self, c: char) -> (r: Option<Result<TokenType, LexError>>)
        requires
            old(self).wf(),
            old(self)@.pos >= 1,
            old(self)@.text[old(self)@.pos - 1] == c,
        ensures
            final(self).wf(),
            final(self)@.text == old(self)@.text,
            final(self)@.line == old(self)@.line,
            ({
                let s = old(self)@.text;
                let st = next_token(s, (old(self)@.pos - 1) as nat, old(self)@.line);
                let symbol = single(c) is Some || pair(c) is Some || mandatory(c) is Some;
                &&& symbol <==> r is Some
                &&& r matches Some(Ok(t)) ==> st.result == Ok::<TokenView, LexError>(TokenView { kind: t@, line: old(self)@.line })
                &&& r matches Some(Err(e)) ==> st.result == Err::<TokenView, LexError>(e)
                &&& symbol ==> final(self)@.pos == st.pos
                &&& !symbol ==> final(self)@.pos == old(self)@.pos
            }),
    {
        if c == '(' {
            Some(Ok(TokenType::LPAREN))
        } else if c == ')' {
            Some(Ok(TokenType::RPAREN))
        } else if c == '=' {
            Some(Ok(TokenType::EQ))
        } else if c == '+' {
            Some(Ok(TokenType::PLUS))
        } else if c == '*' {
            Some(Ok(TokenType::TIMES))
        } else if c == '@' {
            Some(Ok(TokenType::SQRT))
        } else if c == '^' {
            Some(Ok(TokenType::SQUARE))
        } else if c == '>' {
            Some(Ok(self.next_might_be('=', TokenType::GT, TokenType::LE)))
        } else if c == '-' {
            Some(Ok(self.next_might_be('>', TokenType::MINUS, TokenType::ARROW)))
        } else if c == '<' {
            Some(Ok(self.next_might_be('=', TokenType::LT, TokenType::GE)))
        } else if c == '\\' {
            Some(Ok(self.next_might_be('=', TokenType::DIVIDE, TokenType::NE)))
        } else if c == ':' {
            Some(self.next_must_be('=', TokenType::ASSIGN))
        } else if c == '[' {
            Some(self.next_must_be(']', TokenType::BOX))
        } else {
            None
        }
    }

    /// Takes `next` if it follows, giving `if_two`; otherwise leaves the
    /// following character in place and gives `if_one`.
    fn next_might_be(&mut self, next: char, if_one: TokenType, if_two: TokenType) -> (r: TokenType)
        requires
            old(self).wf(),
        ensures
            final(self).wf(),
            final(self)@.text == old(self)@.text,
            final(self)@.line == old(self)@.line,
            ({
                let s = old(self)@.text;
                let p = old(self)@.pos;
                if p < s.len() && s[p as int] == next {
                    r == if_two && final(self)@.pos == p + 1
                } else {
                    r == if_one && final(self)@.pos == p
                }
            }),
    {
        match self.peek() {
            Some(d) => {
                if d == next {
                    self.pos = self.pos + 1;
                    if_two
                } else {
                    if_one
                }
            },
            None => if_one,
        }
    }

    /// Takes `next`, which must follow, giving `typ`.
    fn next_must_be(&mut self, next: char, typ: TokenType) -> (r: Result<TokenType, LexError>)
        requires
            old(self).wf(),
        ensures
            final(self).wf(),
            final(self)@.text == old(self)@.text,
            final(self)@.line == old(self)@.line,
            ({
                let s = old(self)@.text;
                let p = old(self)@.pos;
                if p < s.len() && s[p as int] == next {
                    r == Ok::<TokenType, LexError>(typ) && final(self)@.pos == p + 1
                } else {
                    r == Err::<TokenType, LexError>(LexError {
                        line: old(self).line_usize(),
                        expected: next,
                        found: if p < s.len() {
                            Some(s[p as int])
                        } else {
                            None
                        },
                    }) && final(self)@.pos == p
                }
            }),
    {
        match self.peek() {
            Some(d) => {
                if d == next {
                    self.pos = self.pos + 1;
                    Ok(typ)
                } else {
                    Err(LexError { line: self.line, expected: next, found: Some(d) })
                }
            },
            None => Err(LexError { line: self.line, expected: next, found: None }),
        }
    }

    pub closed spec fn line_usize(&self) -> usize {
        self.line
    }

    /// Takes the longest run of alphabetic (or, with `alpha` false, numeric)
    /// characters that starts with `first`, just taken.
    fn build_val(&mut self, first: char, alpha: bool) -> (r: Vec<char>)
        requires
            old(self).wf(),
            old(self)@.pos >= 1,
            old(self)@.text[old(self)@.pos - 1] == first,
            if alpha {
                alphabetic(first)
            } else {
                numeric(first)
            },
        ensures
            final(self).wf(),
            final(self)@.text == old(self)@.text,
            final(self)@.line == old(self)@.line,
            ({
                let start = (old(self)@.pos - 1) as nat;
                let end = run_end(old(self)@.text, start, alpha);
                &&& final(self)@.pos == end
                &&& r@ == old(self)@.text.subrange(start as int, end as int)
            }),
    {
        let ghost s = self@.text;
        let ghost start = (self@.pos - 1) as nat;
        let mut w: Vec<char> = Vec::new();
        w.push(first);
        while self.pos < self.chars.len() && in_class(self.chars[self.pos], alpha)
            invariant
                self.wf(),
                self@.text == s,
                s == old(self)@.text,
                start == old(self)@.pos - 1,
                self@.line == old(self)@.line,
                start < self@.pos,
                run_end(s, self@.pos, alpha) == run_end(s, start, alpha),
                w@ == s.subrange(start as int, self@.pos as int),
            decreases s.len() - self@.pos,
        {
            let d = self.chars[self.pos];
            w.push(d);
            self.pos = self.pos + 1;
            assert(w@ =~= s.subrange(start as int, self@.pos as int));
        }
        w
    }
}

} // verus!
