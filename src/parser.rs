//! The recursive-descent translator: it pulls tokens from the scanner, checks
//! every identifier against the scope table and emits C as it goes.
use vstd::prelude::*;
use crate::scanner::{
    lemma_next_token_bounds, next_token, position_ok, LexError, Scanner, ScannerView,
};
use crate::symbol_table::{
    assigned, declared, frame_popped, frame_pushed, name_of, tallies_bounded, token_name, used,
    visible, SymbolTable, TableView,
};
use crate::token::{kind_of, Kind, Lexeme, Token, TokenType, TokenView};

verus! {

/// What a production expected where the input did not match.
#[derive(Debug, Clone, Copy, PartialEq, Eq, Structural)]
pub enum Expected {
    Token(Kind),
    Statement,
    Factor,
    Relop,
    Addop,
    Multop,
}

/// Why a translation stopped.
#[derive(Debug, PartialEq)]
pub enum CompileError {
    /// A `:` or `[` without its second character.
    Lex(LexError),
    /// The current token does not fit the grammar here.
    Unexpected { expected: Expected, found: Kind, line: usize },
    /// An identifier used with no declaration in scope.
    Undeclared { name: String, line: usize },
    /// Input left after the end of the program.
    Junk { line: usize },
}

/// A compile error as a mathematical value.
pub enum Failure {
    Lex(LexError),
    Unexpected { expected: Expected, found: Kind, line: usize },
    Undeclared { name: Seq<char>, line: usize },
    Junk { line: usize },
}

impl View for CompileError {
    type V = Failure;

    open spec fn view(&self) -> Failure {
        match self {
            CompileError::Lex(e) => Failure::Lex(*e),
            CompileError::Unexpected { expected, found, line } => Failure::Unexpected {
                expected: *expected,
                found: *found,
                line: *line,
            },
            CompileError::Undeclared { name, line } => Failure::Undeclared {
                name: name@,
                line: *line,
            },
            CompileError::Junk { line } => Failure::Junk { line: *line },
        }
    }
}

/// A redeclaration inside one block: the name and the line where it recurs.
#[derive(Debug, PartialEq)]
pub struct Redeclaration {
    pub name: String,
    pub line: usize,
}

/// The translator as a mathematical value.
pub struct ParserView {
    pub scan: ScannerView,
    pub tok: TokenView,
    pub table: TableView,
    pub out: Seq<char>,
    pub warnings: Seq<(Seq<char>, nat)>,
}

/// The state after a production, and the error that stopped it, if any.
pub struct Step {
    pub st: ParserView,
    pub err: Option<Failure>,
}

pub open spec fn ok(st: ParserView) -> Step {
    Step { st, err: None }
}

pub open spec fn fail(st: ParserView, e: Failure) -> Step {
    Step { st, err: Some(e) }
}

/// A grammar mismatch at the current token.
pub open spec fn unexpected(p: ParserView, e: Expected) -> Step {
    fail(p, Failure::Unexpected { expected: e, found: kind_of(p.tok.kind), line: p.tok.line as usize })
}

pub open spec fn outcome(p: ParserView, r: Result<(), CompileError>) -> Step {
    Step {
        st: p,
        err: match r {
            Ok(_) => None,
            Err(e) => Some(e@),
        },
    }
}

/// Input characters and tokens still to come: it falls whenever a token
/// other than end of input is consumed.
pub open spec fn measure(p: ParserView) -> nat {
    (p.scan.text.len() - p.scan.pos + if p.tok.kind is EOF {
        0int
    } else {
        1int
    }) as nat
}

/// The cursor fits the text, every tally fits its counts, and the counts
/// made so far, with one more for an identifier token not yet counted, fit
/// the characters read: so no tally can overflow.
pub open spec fn parser_ok(p: ParserView) -> bool {
    &&& position_ok(p.scan.text, p.scan.pos, p.scan.line)
    &&& tallies_bounded(p.table)
    &&& p.table.events + (if p.tok.kind is ID {
        1int
    } else {
        0int
    }) <= p.scan.pos
}

/// As `parser_ok`, with the current identifier token already counted.
pub open spec fn parser_counted(p: ParserView) -> bool {
    &&& position_ok(p.scan.text, p.scan.pos, p.scan.line)
    &&& tallies_bounded(p.table)
    &&& p.table.events <= p.scan.pos
}

/// Reads the next token into `tok`.
#[verifier::opaque]
pub open spec fn advance(p: ParserView) -> Step {
    let r = next_token(p.scan.text, p.scan.pos, p.scan.line);
    let sc = ScannerView { text: p.scan.text, pos: r.pos, line: r.line };
    match r.result {
        Ok(t) => ok(ParserView { scan: sc, tok: t, ..p }),
        Err(e) => fail(ParserView { scan: sc, ..p }, Failure::Lex(e)),
    }
}

/// Consumes the current token if it is of kind `k`.
pub open spec fn must_be(p: ParserView, k: Kind) -> Step {
    if kind_of(p.tok.kind) == k {
        advance(p)
    } else {
        unexpected(p, Expected::Token(k))
    }
}

pub open spec fn is_statement(k: Kind) -> bool {
    k == Kind::ID || k == Kind::PRINT || k == Kind::IF || k == Kind::DO || k == Kind::FA
}

pub open spec fn is_relop(k: Kind) -> bool {
    k == Kind::NE || k == Kind::LT || k == Kind::GT || k == Kind::EQ || k == Kind::LE || k == Kind::GE
}

pub open spec fn is_addop(k: Kind) -> bool {
    k == Kind::PLUS || k == Kind::MINUS
}

pub open spec fn is_multop(k: Kind) -> bool {
    k == Kind::TIMES || k == Kind::DIVIDE
}

pub open spec fn emit(p: ParserView, text: Seq<char>) -> ParserView {
    ParserView { out: p.out + text, ..p }
}

pub open spec fn with_table(p: ParserView, t: TableView) -> ParserView {
    ParserView { table: t, ..p }
}

/// The C operator for a relational operator of the language.
pub open spec fn relop_text(k: Kind) -> Seq<char> {
    if k == Kind::EQ {
        " == "@
    } else if k == Kind::LT {
        " < "@
    } else if k == Kind::GT {
        " > "@
    } else if k == Kind::NE {
        " != "@
    } else if k == Kind::LE {
        " <= "@
    } else {
        " >= "@
    }
}

/// relop ::= "=" | "<" | ">" | "\=" | "<=" | ">="
pub open spec fn relop(p: ParserView) -> Step {
    let k = kind_of(p.tok.kind);
    if is_relop(k) {
        let r = must_be(p, k);
        if r.err is Some {
            r
        } else {
            ok(emit(r.st, relop_text(k)))
        }
    } else {
        unexpected(p, Expected::Relop)
    }
}

/// addop ::= "+" | "-"
pub open spec fn addop(p: ParserView) -> Step {
    let k = kind_of(p.tok.kind);
    if is_addop(k) {
        let r = must_be(p, k);
        if r.err is Some {
            r
        } else {
            ok(emit(r.st, if k == Kind::PLUS { " + "@ } else { " - "@ }))
        }
    } else {
        unexpected(p, Expected::Addop)
    }
}

/// multop ::= "*" | "\"
pub open spec fn multop(p: ParserView) -> Step {
    let k = kind_of(p.tok.kind);
    if is_multop(k) {
        let r = must_be(p, k);
        if r.err is Some {
            r
        } else {
            ok(emit(r.st, if k == Kind::TIMES { " * "@ } else { " / "@ }))
        }
    } else {
        unexpected(p, Expected::Multop)
    }
}

/// expression ::= simple [ relop simple ], parenthesised.
pub open spec fn expression(p: ParserView) -> Step
    decreases measure(p), 6nat,
{
    let r = simple(emit(p, "( "@));
    if r.err is Some {
        r
    } else if measure(r.st) <= measure(p) && is_relop(kind_of(r.st.tok.kind)) {
        let r2 = relop(r.st);
        if r2.err is Some {
            r2
        } else if measure(r2.st) > measure(p) {
            r2
        } else {
            let r3 = simple(r2.st);
            if r3.err is Some {
                r3
            } else {
                ok(emit(r3.st, " )"@))
            }
        }
    } else {
        ok(emit(r.st, " )"@))
    }
}

/// simple ::= term { addop term }
pub open spec fn simple(p: ParserView) -> Step
    decreases measure(p), 5nat,
{
    let r = term(p);
    if r.err is Some {
        r
    } else if measure(r.st) <= measure(p) {
        more_terms(r.st)
    } else {
        r
    }
}

/// { addop term }
pub open spec fn more_terms(p: ParserView) -> Step
    decreases measure(p), 4nat,
{
    if is_addop(kind_of(p.tok.kind)) {
        let r = addop(p);
        if r.err is Some {
            r
        } else if measure(r.st) < measure(p) {
            let r2 = term(r.st);
            if r2.err is Some {
                r2
            } else if measure(r2.st) < measure(p) {
                more_terms(r2.st)
            } else {
                r2
            }
        } else {
            r
        }
    } else {
        ok(p)
    }
}

/// term ::= factor { multop factor }
pub open spec fn term(p: ParserView) -> Step
    decreases measure(p), 3nat,
{
    let r = factor(p);
    if r.err is Some {
        r
    } else if measure(r.st) <= measure(p) {
        more_factors(r.st)
    } else {
        r
    }
}

/// { multop factor }
pub open spec fn more_factors(p: ParserView) -> Step
    decreases measure(p), 2nat,
{
    if is_multop(kind_of(p.tok.kind)) {
        let r = multop(p);
        if r.err is Some {
            r
        } else if measure(r.st) < measure(p) {
            let r2 = factor(r.st);
            if r2.err is Some {
                r2
            } else if measure(r2.st) < measure(p) {
                more_factors(r2.st)
            } else {
                r2
            }
        } else {
            r
        }
    } else {
        ok(p)
    }
}

/// factor ::= "(" expression ")" | id | number
pub open spec fn factor(p: ParserView) -> Step
    decreases measure(p), 1nat,
{
    let k = kind_of(p.tok.kind);
    if k == Kind::ID {
        let name = name_of(p.tok);
        if !visible(p.table.frames, name) {
            fail(p, Failure::Undeclared { name, line: p.tok.line as usize })
        } else {
            let q = emit(emit(p, "x_"@), name);
            must_be(with_table(q, used(q.table, name, p.tok.line as usize)), Kind::ID)
        }
    } else if k == Kind::NUM {
        must_be(emit(p, name_of(p.tok)), Kind::NUM)
    } else if k == Kind::LPAREN {
        let r = must_be(p, Kind::LPAREN);
        if r.err is Some {
            r
        } else if measure(r.st) < measure(p) {
            let r2 = expression(emit(r.st, "( "@));
            if r2.err is Some {
                r2
            } else {
                let r3 = must_be(r2.st, Kind::RPAREN);
                if r3.err is Some {
                    r3
                } else {
                    ok(emit(r3.st, " )"@))
                }
            }
        } else {
            r
        }
    } else {
        unexpected(p, Expected::Factor)
    }
}

/// block ::= [ declarations ] statement_list, in a frame of its own.
pub open spec fn block(p: ParserView) -> Step
    decreases measure(p), 16nat,
{
    let p1 = with_table(p, frame_pushed(p.table));
    let r1 = if kind_of(p1.tok.kind) == Kind::VAR {
        declarations(p1)
    } else {
        ok(p1)
    };
    if r1.err is Some {
        r1
    } else if measure(r1.st) <= measure(p) {
        let r2 = statement_list(r1.st);
        if r2.err is Some {
            r2
        } else {
            ok(with_table(r2.st, frame_popped(r2.st.table)))
        }
    } else {
        r1
    }
}

/// declarations ::= "var" { id } "rav"
pub open spec fn declarations(p: ParserView) -> Step
    decreases measure(p), 15nat,
{
    let r = must_be(p, Kind::VAR);
    if r.err is Some {
        r
    } else if measure(r.st) <= measure(p) {
        let r2 = declared_ids(r.st);
        if r2.err is Some {
            r2
        } else {
            must_be(r2.st, Kind::RAV)
        }
    } else {
        r
    }
}

/// The identifiers of a declaration list: each is declared in the current
/// block, or reported as redeclared there.
pub open spec fn declared_ids(p: ParserView) -> Step
    decreases measure(p), 14nat,
{
    if p.tok.kind is ID {
        let name = name_of(p.tok);
        let p1 = if p.table.frames.last().contains(name) {
            ParserView { warnings: p.warnings.push((name, p.tok.line)), ..p }
        } else {
            let q = emit(emit(emit(p, "int x_"@), name), "=-12345;\n"@);
            with_table(q, declared(q.table, name, p.tok.line))
        };
        let r = advance(p1);
        if r.err is Some {
            r
        } else if measure(r.st) < measure(p) {
            declared_ids(r.st)
        } else {
            r
        }
    } else {
        ok(p)
    }
}

/// { statement }
pub open spec fn statement_list(p: ParserView) -> Step
    decreases measure(p), 13nat,
{
    if is_statement(kind_of(p.tok.kind)) {
        let r = statement(p);
        if r.err is Some {
            r
        } else if measure(r.st) < measure(p) {
            statement_list(r.st)
        } else {
            r
        }
    } else {
        ok(p)
    }
}

/// statement ::= assignment | if | do | fa | print
pub open spec fn statement(p: ParserView) -> Step
    decreases measure(p), 12nat,
{
    let k = kind_of(p.tok.kind);
    if k == Kind::ID {
        assignment(p)
    } else if k == Kind::IF {
        eif(p)
    } else if k == Kind::DO {
        edo(p)
    } else if k == Kind::FA {
        fa(p)
    } else if k == Kind::PRINT {
        print(p)
    } else {
        unexpected(p, Expected::Statement)
    }
}

/// assignment ::= id ":=" expression
pub open spec fn assignment(p: ParserView) -> Step
    decreases measure(p), 11nat,
{
    let name = name_of(p.tok);
    if !visible(p.table.frames, name) {
        fail(p, Failure::Undeclared { name, line: p.tok.line as usize })
    } else {
        let p1 = with_table(p, assigned(p.table, name, p.tok.line as usize));
        let p2 = emit(emit(emit(p1, "x_"@), name), "="@);
        let r = must_be(p2, Kind::ID);
        if r.err is Some {
            r
        } else {
            let r2 = must_be(r.st, Kind::ASSIGN);
            if r2.err is Some {
                r2
            } else if measure(r2.st) <= measure(p) {
                let r3 = expression(r2.st);
                if r3.err is Some {
                    r3
                } else {
                    ok(emit(r3.st, ";\n"@))
                }
            } else {
                r2
            }
        }
    }
}

/// print ::= "print" expression
pub open spec fn print(p: ParserView) -> Step
    decreases measure(p), 11nat,
{
    let r = must_be(p, Kind::PRINT);
    if r.err is Some {
        r
    } else if measure(r.st) <= measure(p) {
        let r2 = expression(emit(r.st, "printf(\"%d\\n\", "@));
        if r2.err is Some {
            r2
        } else {
            ok(emit(r2.st, ");\n"@))
        }
    } else {
        r
    }
}

/// if ::= "if" guarded_commands "fi"
pub open spec fn eif(p: ParserView) -> Step
    decreases measure(p), 11nat,
{
    let r = must_be(emit(p, "\nif"@), Kind::IF);
    if r.err is Some {
        r
    } else if measure(r.st) <= measure(p) {
        let r2 = guarded_commands(r.st);
        if r2.err is Some {
            r2
        } else {
            must_be(r2.st, Kind::FI)
        }
    } else {
        r
    }
}

/// do ::= "do" guarded_commands "od", as a guard chain inside an endless
/// loop whose final branch leaves it. That exit branch is appended even when
/// the chain already ends in an `else` of its own.
pub open spec fn edo(p: ParserView) -> Step
    decreases measure(p), 11nat,
{
    let r = must_be(emit(p, "while(1){\n"@), Kind::DO);
    if r.err is Some {
        r
    } else if measure(r.st) <= measure(p) {
        let r2 = guarded_commands(emit(r.st, "if"@));
        if r2.err is Some {
            r2
        } else {
            must_be(emit(emit(r2.st, "else { break; }\n"@), "}\n\n"@), Kind::OD)
        }
    } else {
        r
    }
}

/// fa ::= "fa" id ":=" expression "to" expression ["st" expression] commands "af"
pub open spec fn fa(p: ParserView) -> Step
    decreases measure(p), 11nat,
{
    let r = must_be(emit(p, "for( "@), Kind::FA);
    if r.err is Some {
        r
    } else {
        let q = r.st;
        let name = name_of(q.tok);
        if !(q.tok.kind is ID) {
            unexpected(q, Expected::Token(Kind::ID))
        } else if !visible(q.table.frames, name) {
            fail(q, Failure::Undeclared { name, line: q.tok.line as usize })
        } else {
            let q1 = emit(emit(q, "x_"@), name);
            let q2 = with_table(q1, assigned(q1.table, name, q.tok.line as usize));
            let r2 = must_be(q2, Kind::ID);
            if r2.err is Some {
                r2
            } else {
                let r3 = must_be(emit(r2.st, " = "@), Kind::ASSIGN);
                if r3.err is Some {
                    r3
                } else if measure(r3.st) <= measure(p) {
                    fa_bounds(r3.st, name)
                } else {
                    r3
                }
            }
        }
    }
}

/// The rest of a `fa` loop from its first expression on; `name` is the
/// control variable.
pub open spec fn fa_bounds(p: ParserView, name: Seq<char>) -> Step
    decreases measure(p), 10nat,
{
    let r4 = expression(p);
    if r4.err is Some {
        r4
    } else {
        let r5 = must_be(emit(emit(emit(r4.st, "; x_"@), name), " <= "@), Kind::TO);
        if r5.err is Some {
            r5
        } else if measure(r5.st) <= measure(p) {
            let r6 = expression(r5.st);
            if r6.err is Some {
                r6
            } else if measure(r6.st) <= measure(p) {
                fa_body(emit(emit(emit(r6.st, "; x_"@), name), "++ )\n"@))
            } else {
                r6
            }
        } else {
            r5
        }
    }
}

/// The optional `st` guard, the commands and the closing `af` of a loop.
/// The `st` expression does not change the step: it guards the body.
pub open spec fn fa_body(p: ParserView) -> Step
    decreases measure(p), 9nat,
{
    let r7 = if kind_of(p.tok.kind) == Kind::ST {
        let r = must_be(emit(p, "if"@), Kind::ST);
        if r.err is Some {
            r
        } else if measure(r.st) <= measure(p) {
            expression(r.st)
        } else {
            r
        }
    } else {
        ok(p)
    };
    if r7.err is Some {
        r7
    } else if measure(r7.st) <= measure(p) {
        let r8 = commands(r7.st);
        if r8.err is Some {
            r8
        } else {
            must_be(r8.st, Kind::AF)
        }
    } else {
        r7
    }
}

/// guarded_commands ::= guarded_command { "[]" guarded_command } [ "else" commands ]
pub open spec fn guarded_commands(p: ParserView) -> Step
    decreases measure(p), 10nat,
{
    let r = guarded_command(p);
    if r.err is Some {
        r
    } else if measure(r.st) <= measure(p) {
        let r2 = more_guarded(r.st);
        if r2.err is Some {
            r2
        } else if measure(r2.st) <= measure(p) {
            if kind_of(r2.st.tok.kind) == Kind::ELSE {
                let r3 = must_be(emit(r2.st, "else"@), Kind::ELSE);
                if r3.err is Some {
                    r3
                } else if measure(r3.st) <= measure(p) {
                    commands(r3.st)
                } else {
                    r3
                }
            } else {
                r2
            }
        } else {
            r2
        }
    } else {
        r
    }
}

/// { "[]" guarded_command }, each an alternative branch.
pub open spec fn more_guarded(p: ParserView) -> Step
    decreases measure(p), 9nat,
{
    if kind_of(p.tok.kind) == Kind::BOX {
        let r = must_be(emit(p, "else if"@), Kind::BOX);
        if r.err is Some {
            r
        } else if measure(r.st) < measure(p) {
            let r2 = guarded_command(r.st);
            if r2.err is Some {
                r2
            } else if measure(r2.st) < measure(p) {
                more_guarded(r2.st)
            } else {
                r2
            }
        } else {
            r
        }
    } else {
        ok(p)
    }
}

/// guarded_command ::= expression commands
pub open spec fn guarded_command(p: ParserView) -> Step
    decreases measure(p), 8nat,
{
    let r = expression(p);
    if r.err is Some {
        r
    } else if measure(r.st) <= measure(p) {
        commands(r.st)
    } else {
        r
    }
}

/// commands ::= "->" block, as a braced C block.
pub open spec fn commands(p: ParserView) -> Step
    decreases measure(p), 7nat,
{
    let r = must_be(p, Kind::ARROW);
    if r.err is Some {
        r
    } else if measure(r.st) < measure(p) {
        let r2 = block(emit(r.st, "{\n"@));
        if r2.err is Some {
            r2
        } else {
            ok(emit(r2.st, "}\n"@))
        }
    } else {
        r
    }
}

/// program ::= block, wrapped in a C `main`.
#[verifier::opaque]
pub open spec fn program(p: ParserView) -> Step {
    let r = block(emit(p, "#include <stdio.h>\n\nint main()\n{\n"@));
    if r.err is Some {
        r
    } else {
        ok(emit(r.st, "return 0;\n}\n"@))
    }
}

/// The whole translation: the first token, the program, and nothing after it.
pub open spec fn translation(p: ParserView) -> Step {
    let r = advance(p);
    if r.err is Some {
        r
    } else {
        whole_program(r.st)
    }
}

/// The program from its first token on, and nothing after it.
pub open spec fn whole_program(p: ParserView) -> Step {
    let r = program(p);
    if r.err is Some {
        r
    } else if r.st.tok.kind is EOF {
        r
    } else {
        fail(r.st, Failure::Junk { line: r.st.tok.line as usize })
    }
}

/// A production that succeeded left a sound state, closed every frame it
/// opened, and consumed no input back.
pub open spec fn progressed(old: ParserView, new: ParserView) -> bool {
    &&& parser_ok(new)
    &&& new.table.frames.len() == old.table.frames.len()
    &&& measure(new) <= measure(old)
}

/// As `progressed`, having consumed at least one token.
pub open spec fn consumed(old: ParserView, new: ParserView) -> bool {
    progressed(old, new) && measure(new) < measure(old)
}

/// Translates a program into C in one pass, checking scopes and counting
/// each variable's uses and assignments as it goes.
pub struct Parser {
    token: Token,
    scanner: Scanner,
    sym_tab: SymbolTable,
    out: String,
    warnings: Vec<Redeclaration>,
}

impl View for Parser {
    type V = ParserView;

    closed spec fn view(&self) -> ParserView {
        ParserView {
            scan: self.scanner@,
            tok: self.token@,
            table: self.sym_tab@,
            out: self.out@,
            warnings: self.warnings@.map_values(|w: Redeclaration| (w.name@, w.line as nat)),
        }
    }
}

impl Parser {
    /// A translator for `text`, before its first token is read.
    pub fn new(text: &str) -> (r: Parser)
        requires
            text@.len() < usize::MAX,
        ensures
            r@ == (ParserView {
                scan: ScannerView { text: text@, pos: 0, line: 1 },
                tok: TokenView { kind: Lexeme::EOF, line: 0 },
                table: TableView { frames: Seq::empty(), history: Seq::empty(), events: 0 },
                out: Seq::empty(),
                warnings: Seq::empty(),
            }),
            parser_counted(r@),
    {
        let r = Parser {
            token: Token { line: 0, typ: TokenType::EOF },
            scanner: Scanner::new(text),
            sym_tab: SymbolTable::new(),
            out: String::new(),
            warnings: Vec::new(),
        };
        assert(r@.warnings =~= Seq::empty());
        r
    }

    /// The C text emitted so far.
    pub fn output(&self) -> (r: &String)
        ensures
            r@ == self@.out,
    {
        &self.out
    }

    /// The redeclarations met so far, in order. They are kept apart from
    /// the emitted code rather than interleaved with it.
    pub fn warnings(&self) -> (r: &Vec<Redeclaration>)
        ensures
            r@.map_values(|w: Redeclaration| (w.name@, w.line as nat)) == self@.warnings,
    {
        &self.warnings
    }

    /// The scope table, whose history backs the usage report.
    pub fn symbol_table(&self) -> (r: &SymbolTable)
        ensures
            r@ == self@.table,
    {
        &self.sym_tab
    }

    /// Translates the whole text: reads the first token, translates the
    /// program, and requires that nothing follows it.
    pub fn parse(&mut self) -> (r: Result<(), CompileError>)
        requires
            parser_counted(old(self)@),
            old(self)@.table.frames.len() == 0,
        ensures
            outcome(final(self)@, r) == translation(old(self)@),
            r is Ok ==> final(self)@.tok.kind is EOF,
    {
        if let Err(e) = self.scan() {
            return Err(e);
        }
        self.whole_program()
    }

    /// The program, then end of input.
    fn whole_program(&mut self) -> (r: Result<(), CompileError>)
        requires
            parser_ok(old(self)@),
        ensures
            outcome(final(self)@, r) == whole_program(old(self)@),
            r is Ok ==> final(self)@.tok.kind is EOF,
    {
        if let Err(e) = self.program() {
            return Err(e);
        }
        if !self.token_match(Kind::EOF) {
            return Err(CompileError::Junk { line: self.token.line });
        }
        Ok(())
    }

    /// program ::= block
    fn program(&mut self) -> (r: Result<(), CompileError>)
        requires
            parser_ok(old(self)@),
        ensures
            outcome(final(self)@, r) == program(old(self)@),
            r is Ok ==> progressed(old(self)@, final(self)@),
    {
        reveal(program);
        self.out.append("#include <stdio.h>\n\nint main()\n{\n");
        if let Err(e) = self.block() {
            return Err(e);
        }
        self.out.append("return 0;\n}\n");
        Ok(())
    }

    /// block ::= [ declarations ] statement_list
    fn block(&mut self) -> (r: Result<(), CompileError>)
        requires
            parser_ok(old(self)@),
        ensures
            outcome(final(self)@, r) == block(old(self)@),
            r is Ok ==> progressed(old(self)@, final(self)@),
        decreases measure(old(self)@), 16nat,
    {
        self.sym_tab.add_frame();
        if self.token_match(Kind::VAR) {
            if let Err(e) = self.declarations() {
                return Err(e);
            }
        }
        if let Err(e) = self.statement_list() {
            return Err(e);
        }
        self.sym_tab.pop_frame();
        Ok(())
    }

    /// declarations ::= "var" { id } "rav"
    fn declarations(&mut self) -> (r: Result<(), CompileError>)
        requires
            parser_ok(old(self)@),
            old(self)@.table.frames.len() > 0,
        ensures
            outcome(final(self)@, r) == declarations(old(self)@),
            r is Ok ==> consumed(old(self)@, final(self)@),
        decreases measure(old(self)@), 15nat,
    {
        if let Err(e) = self.must_be(Kind::VAR) {
            return Err(e);
        }
        if let Err(e) = self.declared_ids() {
            return Err(e);
        }
        self.must_be(Kind::RAV)
    }

    /// The identifiers of a declaration list.
    fn declared_ids(&mut self) -> (r: Result<(), CompileError>)
        requires
            parser_ok(old(self)@),
            old(self)@.table.frames.len() > 0,
        ensures
            outcome(final(self)@, r) == declared_ids(old(self)@),
            r is Ok ==> progressed(old(self)@, final(self)@),
        decreases measure(old(self)@), 14nat,
    {
        if !self.token_match(Kind::ID) {
            return Ok(());
        }
        if self.sym_tab.declared_in_block(&self.token) {
            let w = Redeclaration { name: token_name(&self.token).clone(), line: self.token.line };
            let ghost before = self.warnings@;
            self.warnings.push(w);
            assert(self.warnings@.map_values(|w: Redeclaration| (w.name@, w.line as nat))
                =~= before.map_values(|w: Redeclaration| (w.name@, w.line as nat)).push(
                (w.name@, w.line as nat),
            ));
        } else {
            self.out.append("int x_");
            self.out.append(token_name(&self.token).as_str());
            self.out.append("=-12345;\n");
            self.sym_tab.add_var(&self.token);
        }
        if let Err(e) = self.scan() {
            return Err(e);
        }
        self.declared_ids()
    }

    /// { statement }
    fn statement_list(&mut self) -> (r: Result<(), CompileError>)
        requires
            parser_ok(old(self)@),
        ensures
            outcome(final(self)@, r) == statement_list(old(self)@),
            r is Ok ==> progressed(old(self)@, final(self)@),
        decreases measure(old(self)@), 13nat,
    {
        if !self.is_statement() {
            return Ok(());
        }
        if let Err(e) = self.statement() {
            return Err(e);
        }
        self.statement_list()
    }

    /// statement ::= assignment | if | do | fa | print
    fn statement(&mut self) -> (r: Result<(), CompileError>)
        requires
            parser_ok(old(self)@),
        ensures
            outcome(final(self)@, r) == statement(old(self)@),
            r is Ok ==> consumed(old(self)@, final(self)@),
        decreases measure(old(self)@), 12nat,
    {
        match self.token.typ.kind() {
            Kind::ID => self.assignment(),
            Kind::IF => self.eif(),
            Kind::DO => self.edo(),
            Kind::FA => self.fa(),
            Kind::PRINT => self.print(),
            _ => Err(self.unexpected(Expected::Statement)),
        }
    }

    /// assignment ::= id ":=" expression
    fn assignment(&mut self) -> (r: Result<(), CompileError>)
        requires
            parser_ok(old(self)@),
            old(self)@.tok.kind is ID,
        ensures
            outcome(final(self)@, r) == assignment(old(self)@),
            r is Ok ==> consumed(old(self)@, final(self)@),
        decreases measure(old(self)@), 11nat,
    {
        if !self.sym_tab.in_scope(&self.token) {
            return Err(self.undeclared());
        }
        self.sym_tab.inc_assign(&self.token);
        self.out.append("x_");
        self.out.append(token_name(&self.token).as_str());
        self.out.append("=");
        if let Err(e) = self.must_be(Kind::ID) {
            return Err(e);
        }
        if let Err(e) = self.must_be(Kind::ASSIGN) {
            return Err(e);
        }
        if let Err(e) = self.expression() {
            return Err(e);
        }
        self.out.append(";\n");
        Ok(())
    }

    /// print ::= "print" expression
    fn print(&mut self) -> (r: Result<(), CompileError>)
        requires
            parser_ok(old(self)@),
        ensures
            outcome(final(self)@, r) == print(old(self)@),
            r is Ok ==> consumed(old(self)@, final(self)@),
        decreases measure(old(self)@), 11nat,
    {
        if let Err(e) = self.must_be(Kind::PRINT) {
            return Err(e);
        }
        self.out.append("printf(\"%d\\n\", ");
        if let Err(e) = self.expression() {
            return Err(e);
        }
        self.out.append(");\n");
        Ok(())
    }

    /// if ::= "if" guarded_commands "fi"
    fn eif(&mut self) -> (r: Result<(), CompileError>)
        requires
            parser_ok(old(self)@),
        ensures
            outcome(final(self)@, r) == eif(old(self)@),
            r is Ok ==> consumed(old(self)@, final(self)@),
        decreases measure(old(self)@), 11nat,
    {
        self.out.append("\nif");
        if let Err(e) = self.must_be(Kind::IF) {
            return Err(e);
        }
        if let Err(e) = self.guarded_commands() {
            return Err(e);
        }
        self.must_be(Kind::FI)
    }

    /// do ::= "do" guarded_commands "od"
    fn edo(&mut self) -> (r: Result<(), CompileError>)
        requires
            parser_ok(old(self)@),
        ensures
            outcome(final(self)@, r) == edo(old(self)@),
            r is Ok ==> consumed(old(self)@, final(self)@),
        decreases measure(old(self)@), 11nat,
    {
        self.out.append("while(1){\n");
        if let Err(e) = self.must_be(Kind::DO) {
            return Err(e);
        }
        self.out.append("if");
        if let Err(e) = self.guarded_commands() {
            return Err(e);
        }
        self.out.append("else { break; }\n");
        self.out.append("}\n\n");
        self.must_be(Kind::OD)
    }

    /// fa ::= "fa" id ":=" expression "to" expression ["st" expression] commands "af"
    fn fa(&mut self) -> (r: Result<(), CompileError>)
        requires
            parser_ok(old(self)@),
        ensures
            outcome(final(self)@, r) == fa(old(self)@),
            r is Ok ==> consumed(old(self)@, final(self)@),
        decreases measure(old(self)@), 11nat,
    {
        self.out.append("for( ");
        if let Err(e) = self.must_be(Kind::FA) {
            return Err(e);
        }
        if !self.token_match(Kind::ID) {
            return Err(self.unexpected(Expected::Token(Kind::ID)));
        }
        if !self.sym_tab.in_scope(&self.token) {
            return Err(self.undeclared());
        }
        let name = token_name(&self.token).clone();
        self.out.append("x_");
        self.out.append(name.as_str());
        self.sym_tab.inc_assign(&self.token);
        if let Err(e) = self.must_be(Kind::ID) {
            return Err(e);
        }
        self.out.append(" = ");
        if let Err(e) = self.must_be(Kind::ASSIGN) {
            return Err(e);
        }
        self.fa_bounds(&name)
    }

    /// The bounds of a `fa` loop over `name`, and what follows them.
    fn fa_bounds(&mut self, name: &String) -> (r: Result<(), CompileError>)
        requires
            parser_ok(old(self)@),
        ensures
            outcome(final(self)@, r) == fa_bounds(old(self)@, name@),
            r is Ok ==> progressed(old(self)@, final(self)@),
        decreases measure(old(self)@), 10nat,
    {
        if let Err(e) = self.expression() {
            return Err(e);
        }
        self.out.append("; x_");
        self.out.append(name.as_str());
        self.out.append(" <= ");
        if let Err(e) = self.must_be(Kind::TO) {
            return Err(e);
        }
        if let Err(e) = self.expression() {
            return Err(e);
        }
        self.out.append("; x_");
        self.out.append(name.as_str());
        self.out.append("++ )\n");
        self.fa_body()
    }

    /// The optional `st` guard, the commands and the `af` of a loop.
    fn fa_body(&mut self) -> (r: Result<(), CompileError>)
        requires
            parser_ok(old(self)@),
        ensures
            outcome(final(self)@, r) == fa_body(old(self)@),
            r is Ok ==> progressed(old(self)@, final(self)@),
        decreases measure(old(self)@), 9nat,
    {
        if self.token_match(Kind::ST) {
            self.out.append("if");
            if let Err(e) = self.must_be(Kind::ST) {
                return Err(e);
            }
            if let Err(e) = self.expression() {
                return Err(e);
            }
        }
        if let Err(e) = self.commands() {
            return Err(e);
        }
        self.must_be(Kind::AF)
    }

    /// guarded_commands ::= guarded_command { "[]" guarded_command } [ "else" commands ]
    fn guarded_commands(&mut self) -> (r: Result<(), CompileError>)
        requires
            parser_ok(old(self)@),
        ensures
            outcome(final(self)@, r) == guarded_commands(old(self)@),
            r is Ok ==> progressed(old(self)@, final(self)@),
        decreases measure(old(self)@), 10nat,
    {
        if let Err(e) = self.guarded_command() {
            return Err(e);
        }
        if let Err(e) = self.more_guarded() {
            return Err(e);
        }
        if self.token_match(Kind::ELSE) {
            self.out.append("else");
            if let Err(e) = self.must_be(Kind::ELSE) {
                return Err(e);
            }
            if let Err(e) = self.commands() {
                return Err(e);
            }
        }
        Ok(())
    }

    /// { "[]" guarded_command }
    fn more_guarded(&mut self) -> (r: Result<(), CompileError>)
        requires
            parser_ok(old(self)@),
        ensures
            outcome(final(self)@, r) == more_guarded(old(self)@),
            r is Ok ==> progressed(old(self)@, final(self)@),
        decreases measure(old(self)@), 9nat,
    {
        if !self.token_match(Kind::BOX) {
            return Ok(());
        }
        self.out.append("else if");
        if let Err(e) = self.must_be(Kind::BOX) {
            return Err(e);
        }
        if let Err(e) = self.guarded_command() {
            return Err(e);
        }
        self.more_guarded()
    }

    /// guarded_command ::= expression commands
    fn guarded_command(&mut self) -> (r: Result<(), CompileError>)
        requires
            parser_ok(old(self)@),
        ensures
            outcome(final(self)@, r) == guarded_command(old(self)@),
            r is Ok ==> progressed(old(self)@, final(self)@),
        decreases measure(old(self)@), 8nat,
    {
        if let Err(e) = self.expression() {
            return Err(e);
        }
        self.commands()
    }

    /// commands ::= "->" block
    fn commands(&mut self) -> (r: Result<(), CompileError>)
        requires
            parser_ok(old(self)@),
        ensures
            outcome(final(self)@, r) == commands(old(self)@),
            r is Ok ==> consumed(old(self)@, final(self)@),
        decreases measure(old(self)@), 7nat,
    {
        if let Err(e) = self.must_be(Kind::ARROW) {
            return Err(e);
        }
        self.out.append("{\n");
        if let Err(e) = self.block() {
            return Err(e);
        }
        self.out.append("}\n");
        Ok(())
    }

    /// expression ::= simple [ relop simple ]
    fn expression(&mut self) -> (r: Result<(), CompileError>)
        requires
            parser_ok(old(self)@),
        ensures
            outcome(final(self)@, r) == expression(old(self)@),
            r is Ok ==> consumed(old(self)@, final(self)@),
        decreases measure(old(self)@), 6nat,
    {
        self.out.append("( ");
        if let Err(e) = self.simple() {
            return Err(e);
        }
        if self.is_relop() {
            if let Err(e) = self.relop() {
                return Err(e);
            }
            if let Err(e) = self.simple() {
                return Err(e);
            }
        }
        self.out.append(" )");
        Ok(())
    }

    /// simple ::= term { addop term }
    fn simple(&mut self) -> (r: Result<(), CompileError>)
        requires
            parser_ok(old(self)@),
        ensures
            outcome(final(self)@, r) == simple(old(self)@),
            r is Ok ==> consumed(old(self)@, final(self)@),
        decreases measure(old(self)@), 5nat,
    {
        if let Err(e) = self.term() {
            return Err(e);
        }
        self.more_terms()
    }

    /// { addop term }
    fn more_terms(&mut self) -> (r: Result<(), CompileError>)
        requires
            parser_ok(old(self)@),
        ensures
            outcome(final(self)@, r) == more_terms(old(self)@),
            r is Ok ==> progressed(old(self)@, final(self)@),
        decreases measure(old(self)@), 4nat,
    {
        if !self.is_addop() {
            return Ok(());
        }
        if let Err(e) = self.addop() {
            return Err(e);
        }
        if let Err(e) = self.term() {
            return Err(e);
        }
        self.more_terms()
    }

    /// term ::= factor { multop factor }
    fn term(&mut self) -> (r: Result<(), CompileError>)
        requires
            parser_ok(old(self)@),
        ensures
            outcome(final(self)@, r) == term(old(self)@),
            r is Ok ==> consumed(old(self)@, final(self)@),
        decreases measure(old(self)@), 3nat,
    {
        if let Err(e) = self.factor() {
            return Err(e);
        }
        self.more_factors()
    }

    /// { multop factor }
    fn more_factors(&mut self) -> (r: Result<(), CompileError>)
        requires
            parser_ok(old(self)@),
        ensures
            outcome(final(self)@, r) == more_factors(old(self)@),
            r is Ok ==> progressed(old(self)@, final(self)@),
        decreases measure(old(self)@), 2nat,
    {
        if !self.is_multop() {
            return Ok(());
        }
        if let Err(e) = self.multop() {
            return Err(e);
        }
        if let Err(e) = self.factor() {
            return Err(e);
        }
        self.more_factors()
    }

    /// factor ::= "(" expression ")" | id | number
    fn factor(&mut self) -> (r: Result<(), CompileError>)
        requires
            parser_ok(old(self)@),
        ensures
            outcome(final(self)@, r) == factor(old(self)@),
            r is Ok ==> consumed(old(self)@, final(self)@),
        decreases measure(old(self)@), 1nat,
    {
        match self.token.typ.kind() {
            Kind::ID => {
                if !self.sym_tab.in_scope(&self.token) {
                    return Err(self.undeclared());
                }
                self.out.append("x_");
                self.out.append(token_name(&self.token).as_str());
                self.sym_tab.inc_usage(&self.token);
                self.must_be(Kind::ID)
            },
            Kind::NUM => {
                self.out.append(token_name(&self.token).as_str());
                self.must_be(Kind::NUM)
            },
            Kind::LPAREN => {
                if let Err(e) = self.must_be(Kind::LPAREN) {
                    return Err(e);
                }
                self.out.append("( ");
                if let Err(e) = self.expression() {
                    return Err(e);
                }
                if let Err(e) = self.must_be(Kind::RPAREN) {
                    return Err(e);
                }
                self.out.append(" )");
                Ok(())
            },
            _ => Err(self.unexpected(Expected::Factor)),
        }
    }

    /// relop ::= "=" | "<" | ">" | "\=" | "<=" | ">="
    fn relop(&mut self) -> (r: Result<(), CompileError>)
        requires
            parser_ok(old(self)@),
        ensures
            outcome(final(self)@, r) == relop(old(self)@),
            r is Ok ==> consumed(old(self)@, final(self)@),
    {
        let k = self.token.typ.kind();
        if !self.is_relop() {
            return Err(self.unexpected(Expected::Relop));
        }
        if let Err(e) = self.must_be(k) {
            return Err(e);
        }
        match k {
            Kind::EQ => self.out.append(" == "),
            Kind::LT => self.out.append(" < "),
            Kind::GT => self.out.append(" > "),
            Kind::NE => self.out.append(" != "),
            Kind::LE => self.out.append(" <= "),
            _ => self.out.append(" >= "),
        }
        Ok(())
    }

    /// addop ::= "+" | "-"
    fn addop(&mut self) -> (r: Result<(), CompileError>)
        requires
            parser_ok(old(self)@),
        ensures
            outcome(final(self)@, r) == addop(old(self)@),
            r is Ok ==> consumed(old(self)@, final(self)@),
    {
        let k = self.token.typ.kind();
        if !self.is_addop() {
            return Err(self.unexpected(Expected::Addop));
        }
        if let Err(e) = self.must_be(k) {
            return Err(e);
        }
        if k == Kind::PLUS {
            self.out.append(" + ");
        } else {
            self.out.append(" - ");
        }
        Ok(())
    }

    /// multop ::= "*" | "\"
    fn multop(&mut self) -> (r: Result<(), CompileError>)
        requires
            parser_ok(old(self)@),
        ensures
            outcome(final(self)@, r) == multop(old(self)@),
            r is Ok ==> consumed(old(self)@, final(self)@),
    {
        let k = self.token.typ.kind();
        if !self.is_multop() {
            return Err(self.unexpected(Expected::Multop));
        }
        if let Err(e) = self.must_be(k) {
            return Err(e);
        }
        if k == Kind::TIMES {
            self.out.append(" * ");
        } else {
            self.out.append(" / ");
        }
        Ok(())
    }

    /// Reads the next token.
    fn scan(&mut self) -> (r: Result<(), CompileError>)
        requires
            parser_counted(old(self)@),
        ensures
            outcome(final(self)@, r) == advance(old(self)@),
            r is Ok ==> parser_ok(final(self)@) && final(self)@.table == old(self)@.table
                && measure(final(self)@) <= measure(old(self)@)
                && (!(old(self)@.tok.kind is EOF) ==> measure(final(self)@) < measure(old(self)@)),
    {
        reveal(advance);
        proof {
            lemma_next_token_bounds(self@.scan.text, self@.scan.pos, self@.scan.line);
        }
        match self.scanner.scan() {
            Ok(t) => {
                self.token = t;
                Ok(())
            },
            Err(e) => Err(CompileError::Lex(e)),
        }
    }

    fn is_multop(&self) -> (r: bool)
        ensures
            r == is_multop(kind_of(self@.tok.kind)),
    {
        let k = self.token.typ.kind();
        k == Kind::DIVIDE || k == Kind::TIMES
    }

    fn is_relop(&self) -> (r: bool)
        ensures
            r == is_relop(kind_of(self@.tok.kind)),
    {
        let k = self.token.typ.kind();
        k == Kind::NE || k == Kind::LT || k == Kind::GT || k == Kind::EQ || k == Kind::LE || k == Kind::GE
    }

    fn is_addop(&self) -> (r: bool)
        ensures
            r == is_addop(kind_of(self@.tok.kind)),
    {
        let k = self.token.typ.kind();
        k == Kind::PLUS || k == Kind::MINUS
    }

    fn is_statement(&self) -> (r: bool)
        ensures
            r == is_statement(kind_of(self@.tok.kind)),
    {
        let k = self.token.typ.kind();
        k == Kind::ID || k == Kind::PRINT || k == Kind::IF || k == Kind::DO || k == Kind::FA
    }

    /// Consumes the current token, which must be of kind `k`.
    fn must_be(&mut self, k: Kind) -> (r: Result<(), CompileError>)
        requires
            parser_counted(old(self)@),
            k != Kind::EOF,
        ensures
            outcome(final(self)@, r) == must_be(old(self)@, k),
            r is Ok ==> parser_ok(final(self)@) && final(self)@.table == old(self)@.table
                && measure(final(self)@) < measure(old(self)@),
    {
        if self.token_match(k) {
            self.scan()
        } else {
            Err(self.unexpected(Expected::Token(k)))
        }
    }

    /// Whether the current token is of kind `k`.
    fn token_match(&self, k: Kind) -> (r: bool)
        ensures
            r == (kind_of(self@.tok.kind) == k),
    {
        self.token.typ.kind() == k
    }

    /// The grammar mismatch at the current token.
    fn unexpected(&self, e: Expected) -> (r: CompileError)
        ensures
            unexpected(self@, e) == outcome(self@, Err(r)),
    {
        CompileError::Unexpected { expected: e, found: self.token.typ.kind(), line: self.token.line }
    }

    /// The undeclared reference at the current, name-carrying token.
    fn undeclared(&self) -> (r: CompileError)
        requires
            self@.tok.kind is ID,
        ensures
            r@ == (Failure::Undeclared { name: name_of(self@.tok), line: self@.tok.line as usize }),
    {
        CompileError::Undeclared { name: token_name(&self.token).clone(), line: self.token.line }
    }
}

} // verus!
