//! The scope table: a stack of frames of declared names, and the history of
//! every variable declared, with its usage and assignment tallies by line.
use vstd::prelude::*;
use std::collections::HashMap;
use crate::token::{Lexeme, Token, TokenType, TokenView};

verus! {

broadcast use vstd::std_specs::hash::group_hash_axioms;

/// Whether a token carries a spelling that can name a variable.
pub open spec fn named(t: TokenView) -> bool {
    t.kind is ID || t.kind is NUM
}

/// The spelling that a token carries.
pub open spec fn name_of(t: TokenView) -> Seq<char> {
    match t.kind {
        Lexeme::ID(s) => s,
        Lexeme::NUM(s) => s,
        _ => Seq::empty(),
    }
}

/// A tally with one more count on `line`.
pub open spec fn bump(m: Map<usize, usize>, line: usize) -> Map<usize, usize> {
    m.insert(
        line,
        if m.contains_key(line) {
            (m[line] + 1) as usize
        } else {
            1
        },
    )
}

/// A tally whose counts are all at most `n`.
pub open spec fn bounded(m: Map<usize, usize>, n: nat) -> bool {
    forall|l: usize| #[trigger] m.contains_key(l) ==> m[l] <= n
}

pub proof fn lemma_bump_bounded(m: Map<usize, usize>, line: usize, n: nat)
    requires
        bounded(m, n),
    ensures
        bounded(bump(m, line), n + 1),
        bounded(m, n + 1),
{
}

/// The spelling of a name-carrying token.
pub fn token_name(tok: &Token) -> (r: &String)
    requires
        named(tok@),
    ensures
        r@ == name_of(tok@),
{
    match &tok.typ {
        TokenType::ID(s) => s,
        TokenType::NUM(s) => s,
        _ => vstd::pervasive::unreached(),
    }
}

/// A variable as a mathematical value.
pub struct VariableView {
    pub name: Seq<char>,
    pub declared: nat,
    pub depth: nat,
    pub uses: Map<usize, usize>,
    pub assignments: Map<usize, usize>,
}

/// A declared variable: its name, the line and nesting depth of its
/// declaration, and how often it was read and assigned on each line.
pub struct Variable {
    name: String,
    declared: usize,
    uses: HashMap<usize, usize>,
    assignments: HashMap<usize, usize>,
    depth: usize,
}

impl View for Variable {
    type V = VariableView;

    closed spec fn view(&self) -> VariableView {
        VariableView {
            name: self.name@,
            declared: self.declared as nat,
            depth: self.depth as nat,
            uses: self.uses@,
            assignments: self.assignments@,
        }
    }
}

impl Variable {
    /// A variable named by `token`, declared on its line at `depth`, not yet
    /// used or assigned.
    pub fn from_token(token: &Token, depth: usize) -> (r: Variable)
        requires
            named(token@),
        ensures
            r@ == (VariableView {
                name: name_of(token@),
                declared: token.line as nat,
                depth: depth as nat,
                uses: Map::empty(),
                assignments: Map::empty(),
            }),
    {
        Variable {
            name: token_name(token).clone(),
            uses: HashMap::new(),
            assignments: HashMap::new(),
            declared: token.line,
            depth,
        }
    }

    /// Counts one use on `line`.
    pub fn inc_usage(&mut self, line: usize)
        requires
            old(self)@.uses.contains_key(line) ==> old(self)@.uses[line] < usize::MAX,
        ensures
            final(self)@ == (VariableView { uses: bump(old(self)@.uses, line), ..old(self)@ }),
    {
        let n: usize = match self.uses.get(&line) {
            Some(c) => *c + 1,
            None => 1,
        };
        self.uses.insert(line, n);
    }

    /// Counts one assignment on `line`.
    pub fn inc_assignment(&mut self, line: usize)
        requires
            old(self)@.assignments.contains_key(line) ==> old(self)@.assignments[line] < usize::MAX,
        ensures
            final(self)@ == (VariableView {
                assignments: bump(old(self)@.assignments, line),
                ..old(self)@
            }),
    {
        let n: usize = match self.assignments.get(&line) {
            Some(c) => *c + 1,
            None => 1,
        };
        self.assignments.insert(line, n);
    }

    pub fn name(&self) -> (r: &String)
        ensures
            r@ == self@.name,
    {
        &self.name
    }

    pub fn declared(&self) -> (r: usize)
        ensures
            r == self@.declared,
    {
        self.declared
    }

    pub fn depth(&self) -> (r: usize)
        ensures
            r == self@.depth,
    {
        self.depth
    }

    pub fn uses(&self) -> (r: &HashMap<usize, usize>)
        ensures
            r@ == self@.uses,
    {
        &self.uses
    }

    pub fn assignments(&self) -> (r: &HashMap<usize, usize>)
        ensures
            r@ == self@.assignments,
    {
        &self.assignments
    }
}

/// The table as a mathematical value: the names declared in each open
/// frame, innermost last; every variable ever declared, in order; and how
/// many uses and assignments have been counted in all.
pub struct TableView {
    pub frames: Seq<Seq<Seq<char>>>,
    pub history: Seq<VariableView>,
    pub events: nat,
}

/// Whether some open frame declares `name`.
pub open spec fn visible(frames: Seq<Seq<Seq<char>>>, name: Seq<char>) -> bool {
    exists|f: int| 0 <= f < frames.len() && #[trigger] frames[f].contains(name)
}

/// The index of the most recent variable named `name` in `h`, or -1.
pub open spec fn latest(h: Seq<VariableView>, name: Seq<char>) -> int
    decreases h.len(),
{
    if h.len() == 0 {
        -1
    } else if h.last().name == name {
        h.len() - 1
    } else {
        latest(h.drop_last(), name)
    }
}

/// The history with one more use of `name` on `line`, counted against its
/// most recent declaration.
pub open spec fn history_used(h: Seq<VariableView>, name: Seq<char>, line: usize) -> Seq<VariableView> {
    let i = latest(h, name);
    if i < 0 {
        h
    } else {
        h.update(i, VariableView { uses: bump(h[i].uses, line), ..h[i] })
    }
}

/// The history with one more assignment of `name` on `line`, counted against
/// its most recent declaration.
pub open spec fn history_assigned(h: Seq<VariableView>, name: Seq<char>, line: usize) -> Seq<VariableView> {
    let i = latest(h, name);
    if i < 0 {
        h
    } else {
        h.update(i, VariableView { assignments: bump(h[i].assignments, line), ..h[i] })
    }
}

pub proof fn lemma_latest(h: Seq<VariableView>, name: Seq<char>)
    ensures
        -1 <= latest(h, name) < h.len(),
        latest(h, name) >= 0 ==> h[latest(h, name)].name == name,
        latest(h, name) >= 0 ==> forall|j: int| latest(h, name) < j < h.len() ==> h[j].name != name,
        latest(h, name) < 0 ==> forall|j: int| 0 <= j < h.len() ==> h[j].name != name,
    decreases h.len(),
{
    if h.len() > 0 && h.last().name != name {
        let t = h.drop_last();
        lemma_latest(t, name);
        assert(forall|j: int| 0 <= j < t.len() ==> t[j] == h[j]);
    }
}

/// The table with an empty innermost frame opened.
pub open spec fn frame_pushed(t: TableView) -> TableView {
    TableView { frames: t.frames.push(Seq::empty()), ..t }
}

/// The table with its innermost frame closed.
pub open spec fn frame_popped(t: TableView) -> TableView {
    TableView { frames: t.frames.drop_last(), ..t }
}

/// The table with `name` declared in the innermost frame on `line`.
pub open spec fn declared(t: TableView, name: Seq<char>, line: nat) -> TableView {
    TableView {
        frames: t.frames.update(t.frames.len() - 1, t.frames.last().push(name)),
        history: t.history.push(
            VariableView {
                name,
                declared: line,
                depth: t.frames.len(),
                uses: Map::empty(),
                assignments: Map::empty(),
            },
        ),
        events: t.events,
    }
}

/// The table with one use of `name` counted on `line`.
pub open spec fn used(t: TableView, name: Seq<char>, line: usize) -> TableView {
    TableView {
        history: history_used(t.history, name, line),
        events: if latest(t.history, name) >= 0 {
            t.events + 1
        } else {
            t.events
        },
        ..t
    }
}

/// The table with one assignment of `name` counted on `line`.
pub open spec fn assigned(t: TableView, name: Seq<char>, line: usize) -> TableView {
    TableView {
        history: history_assigned(t.history, name, line),
        events: if latest(t.history, name) >= 0 {
            t.events + 1
        } else {
            t.events
        },
        ..t
    }
}

/// A variable declared in an enclosing block is visible inside a block
/// nested in it, and a use or assignment counted there stays on its one
/// record in the history after the nested block closes.
pub proof fn lemma_nested_scope(t: TableView, name: Seq<char>, line: usize)
    requires
        visible(t.frames, name),
        latest(t.history, name) >= 0,
    ensures
        visible(frame_pushed(t).frames, name),
        ({
            let i = latest(t.history, name);
            let after_use = frame_popped(used(frame_pushed(t), name, line));
            let after_assign = frame_popped(assigned(frame_pushed(t), name, line));
            &&& after_use.frames == t.frames
            &&& after_use.history.len() == t.history.len()
            &&& after_use.history[i].uses == bump(t.history[i].uses, line)
            &&& after_use.history[i].assignments == t.history[i].assignments
            &&& forall|j: int| 0 <= j < t.history.len() && j != i ==> after_use.history[j] == t.history[j]
            &&& after_assign.frames == t.frames
            &&& after_assign.history.len() == t.history.len()
            &&& after_assign.history[i].assignments == bump(t.history[i].assignments, line)
            &&& after_assign.history[i].uses == t.history[i].uses
            &&& forall|j: int| 0 <= j < t.history.len() && j != i ==> after_assign.history[j] == t.history[j]
        }),
{
    let f = choose|f: int| 0 <= f < t.frames.len() && #[trigger] t.frames[f].contains(name);
    assert(frame_pushed(t).frames[f] == t.frames[f]);
    assert(frame_pushed(t).frames.drop_last() =~= t.frames);
    lemma_latest(t.history, name);
}

/// Every tally is at most the number of counts made in all.
pub open spec fn tallies_bounded(t: TableView) -> bool {
    forall|i: int|
        0 <= i < t.history.len() ==> bounded(#[trigger] t.history[i].uses, t.events) && bounded(
            t.history[i].assignments,
            t.events,
        )
}

/// A table whose history differs from a well-formed one in one entry, whose
/// tallies are unchanged or bumped once, with one more count made.
proof fn lemma_counted(prev: TableView, next: TableView, i: int)
    requires
        tallies_bounded(prev),
        0 <= i < prev.history.len(),
        next.history.len() == prev.history.len(),
        next.events == prev.events + 1,
        forall|k: int| 0 <= k < next.history.len() && k != i ==> next.history[k] == prev.history[k],
        bounded(prev.history[i].uses, prev.events) ==> bounded(next.history[i].uses, next.events),
        bounded(prev.history[i].assignments, prev.events) ==> bounded(
            next.history[i].assignments,
            next.events,
        ),
    ensures
        tallies_bounded(next),
{
    assert forall|k: int| 0 <= k < next.history.len() implies bounded(
        #[trigger] next.history[k].uses,
        next.events,
    ) && bounded(next.history[k].assignments, next.events) by {
        assert(bounded(prev.history[k].uses, prev.events));
        lemma_bump_bounded(prev.history[k].uses, 0, prev.events);
        lemma_bump_bounded(prev.history[k].assignments, 0, prev.events);
    }
}

/// Nested frames of declared names over a history of all declarations.
pub struct SymbolTable {
    frames: Vec<Vec<String>>,
    vars: Vec<Variable>,
    events: Ghost<nat>,
}

impl View for SymbolTable {
    type V = TableView;

    closed spec fn view(&self) -> TableView {
        TableView {
            frames: self.frames@.map_values(|f: Vec<String>| f@.map_values(|n: String| n@)),
            history: self.vars@.map_values(|v: Variable| v@),
            events: self.events@,
        }
    }
}

impl SymbolTable {
    /// Every tally is at most the number of counts made in all.
    pub open spec fn wf(&self) -> bool {
        tallies_bounded(self@)
    }

    /// A table with no frames and no history.
    pub fn new() -> (r: SymbolTable)
        ensures
            r.wf(),
            r@ == (TableView { frames: Seq::empty(), history: Seq::empty(), events: 0 }),
    {
        let r = SymbolTable { frames: Vec::new(), vars: Vec::new(), events: Ghost(0) };
        assert(r@.frames =~= Seq::empty());
        assert(r@.history =~= Seq::empty());
        r
    }

    /// Opens an empty innermost frame.
    pub fn add_frame(&mut self)
        requires
            old(self).wf(),
        ensures
            final(self).wf(),
            final(self)@ == frame_pushed(old(self)@),
    {
        self.frames.push(Vec::new());
        assert(self@.frames =~~= old(self)@.frames.push(Seq::empty()));
        assert(self@.history == old(self)@.history);
    }

    /// Closes the innermost frame; the history keeps its variables.
    pub fn pop_frame(&mut self)
        requires
            old(self).wf(),
            old(self)@.frames.len() > 0,
        ensures
            final(self).wf(),
            final(self)@ == frame_popped(old(self)@),
    {
        self.frames.pop();
        assert(self@.frames =~= old(self)@.frames.drop_last());
        assert(self@.history == old(self)@.history);
    }

    /// Declares the variable named by `tok` in the innermost frame, at the
    /// current depth, and records it in the history.
    pub fn add_var(&mut self, tok: &Token)
        requires
            old(self).wf(),
            old(self)@.frames.len() > 0,
            named(tok@),
        ensures
            final(self).wf(),
            final(self)@ == declared(old(self)@, name_of(tok@), tok.line as nat),
    {
        let last = self.frames.len() - 1;
        self.frames[last].push(token_name(tok).clone());
        let v = Variable::from_token(tok, self.frames.len());
        self.vars.push(v);
        assert forall|k: int| 0 <= k < self@.history.len() implies bounded(
            #[trigger] self@.history[k].uses,
            self@.events,
        ) && bounded(self@.history[k].assignments, self@.events) by {
            if k < old(self)@.history.len() {
                assert(self@.history[k] == old(self)@.history[k]);
                assert(bounded(old(self)@.history[k].uses, old(self)@.events));
            }
        }
        assert(self@.frames =~~= old(self)@.frames.update(
            old(self)@.frames.len() - 1,
            old(self)@.frames.last().push(name_of(tok@)),
        ));
        assert(self@.history =~= old(self)@.history.push(v@));
        assert(self.wf());
    }

    /// Whether some open frame declares the name that `tok` carries.
    pub fn in_scope(&self, tok: &Token) -> (r: bool)
        requires
            named(tok@),
        ensures
            r == visible(self@.frames, name_of(tok@)),
    {
        let name = token_name(tok);
        let mut f: usize = 0;
        while f < self.frames.len()
            invariant
                0 <= f <= self.frames.len(),
                name@ == name_of(tok@),
                forall|g: int| 0 <= g < f ==> !(#[trigger] self@.frames[g]).contains(name@),
            decreases self.frames.len() - f,
        {
            if self.frame_declares(f, name) {
                assert(self@.frames[f as int].contains(name@));
                assert(visible(self@.frames, name@));
                return true;
            }
            f += 1;
        }
        false
    }

    fn frame_declares(&self, f: usize, name: &String) -> (r: bool)
        requires
            f < self@.frames.len(),
        ensures
            r == self@.frames[f as int].contains(name@),
    {
        let frame = &self.frames[f];
        let mut j: usize = 0;
        while j < frame.len()
            invariant
                0 <= j <= frame.len(),
                frame@.map_values(|n: String| n@) == self@.frames[f as int],
                forall|k: int| 0 <= k < j ==> frame@[k]@ != name@,
            decreases frame.len() - j,
        {
            if frame[j] == *name {
                assert(self@.frames[f as int][j as int] == name@);
                return true;
            }
            j += 1;
        }
        false
    }

    /// Whether the innermost frame already declares the name that `tok`
    /// carries.
    pub fn declared_in_block(&self, tok: &Token) -> (r: bool)
        requires
            self@.frames.len() > 0,
            named(tok@),
        ensures
            r == self@.frames.last().contains(name_of(tok@)),
    {
        self.frame_declares(self.frames.len() - 1, token_name(tok))
    }

    /// The index of the most recent variable named `name`, if any.
    fn find_latest(&self, name: &String) -> (r: Option<usize>)
        ensures
            match r {
                Some(i) => latest(self@.history, name@) == i && i < self@.history.len(),
                None => latest(self@.history, name@) == -1,
            },
    {
        proof {
            lemma_latest(self@.history, name@);
        }
        let mut i = self.vars.len();
        while i > 0
            invariant
                i <= self.vars.len(),
                forall|j: int| i <= j < self@.history.len() ==> self@.history[j].name != name@,
                -1 <= latest(self@.history, name@) < self@.history.len(),
                latest(self@.history, name@) >= 0 ==> self@.history[latest(self@.history, name@)].name == name@,
                latest(self@.history, name@) >= 0 ==> forall|j: int|
                    latest(self@.history, name@) < j < self@.history.len() ==> self@.history[j].name != name@,
                latest(self@.history, name@) < 0 ==> forall|j: int|
                    0 <= j < self@.history.len() ==> self@.history[j].name != name@,
            decreases i,
        {
            i -= 1;
            if self.vars[i].name == *name {
                assert(self@.history[i as int].name == name@);
                return Some(i);
            }
        }
        None
    }

    /// Counts one use, on the token's line, of the most recently declared
    /// variable with the token's name; nothing happens if there is none.
    pub fn inc_usage(&mut self, tok: &Token)
        requires
            old(self).wf(),
            named(tok@),
            old(self)@.events < usize::MAX,
        ensures
            final(self).wf(),
            final(self)@ == used(old(self)@, name_of(tok@), tok.line),
    {
        match self.find_latest(token_name(tok)) {
            Some(i) => {
                proof {
                    assert(bounded(old(self)@.history[i as int].uses, old(self)@.events));
                    assert(bounded(old(self)@.history[i as int].assignments, old(self)@.events));
                    lemma_bump_bounded(old(self)@.history[i as int].uses, tok.line, old(self)@.events);
                }
                self.vars[i].inc_usage(tok.line);
                self.events = Ghost(self.events@ + 1);
                assert(self@.history =~= history_used(old(self)@.history, name_of(tok@), tok.line));
                proof {
                    lemma_counted(old(self)@, self@, i as int);
                }
            },
            None => {},
        }
    }

    /// Counts one assignment, on the token's line, of the most recently declared
    /// variable with the token's name; nothing happens if there is none.
    pub fn inc_assign(&mut self, tok: &Token)
        requires
            old(self).wf(),
            named(tok@),
            old(self)@.events < usize::MAX,
        ensures
            final(self).wf(),
            final(self)@ == assigned(old(self)@, name_of(tok@), tok.line),
    {
        match self.find_latest(token_name(tok)) {
            Some(i) => {
                proof {
                    assert(bounded(old(self)@.history[i as int].uses, old(self)@.events));
                    assert(bounded(old(self)@.history[i as int].assignments, old(self)@.events));
                    lemma_bump_bounded(old(self)@.history[i as int].assignments, tok.line, old(self)@.events);
                }
                self.vars[i].inc_assignment(tok.line);
                self.events = Ghost(self.events@ + 1);
                assert(self@.history =~= history_assigned(old(self)@.history, name_of(tok@), tok.line));
                proof {
                    lemma_counted(old(self)@, self@, i as int);
                }
            },
            None => {},
        }
    }

    /// Every variable declared so far, in order of declaration.
    pub fn history(&self) -> (r: &Vec<Variable>)
        ensures
            r@.map_values(|v: Variable| v@) == self@.history,
    {
        &self.vars
    }

    /// The number of open frames.
    pub fn depth(&self) -> (r: usize)
        ensures
            r == self@.frames.len(),
    {
        self.frames.len()
    }
}

} // verus!
