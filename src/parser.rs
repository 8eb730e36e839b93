use vstd::prelude::*;
use slice_deque::SliceDeque;
use crate::token::{Tok, STok, Kind, tok_at, kind_of, payload, kind, payload_of};
use crate::lexer::{
    Lex,
    LexError,
    token_seq,
    tokens_from,
    rest,
    start_state,
    lemma_next_spec,
    lemma_rest_step,
    lemma_tokens_len,
    lex_end,
    lex_result,
    lemma_lex_end_step,
};
use crate::window::{deque_items, deque_new, deque_len, deque_push_back, deque_pop_front, deque_get};
use crate::grammar::{
    ParseError,
    PRes,
    out_of,
    op_of,
    base,
    index_tail,
    call_tail,
    bin_expr,
    operand,
    bin_rest,
    args,
    args_rest,
    Form,
    form_of,
    expr,
    init_stmt,
    assign_stmt,
    store_stmt,
    print_stmt,
    read_elem_stmt,
    return_stmt,
    while_stmt,
    if_stmt,
    statement,
    block,
    block_items,
    params_from,
    has_dup,
    function,
    program_from,
    program,
};
use crate::ir::{
    temp_name,
    temp_name_bytes,
    bin_line_bytes,
    load_line_bytes,
    call_open_bytes,
    args_text_bytes,
    push_all,
    int_line_bytes,
    arr_line_bytes,
    mov_line_bytes,
    store_line_bytes,
    unary_line_bytes,
    cond_line_bytes,
};
use crate::text::{
    op_mult_bytes,
    op_div_bytes,
    op_mod_bytes,
    op_add_bytes,
    op_sub_bytes,
    op_lt_bytes,
    op_gt_bytes,
    op_ge_bytes,
    op_le_bytes,
    op_eq_bytes,
    op_neq_bytes,
    rparen_nl_bytes,
    out_kw_bytes,
    input_kw_bytes,
    ret_kw_bytes,
    while_kw_bytes,
    if_kw_bytes,
    else_kw_bytes,
    break_line_bytes,
    continue_line_bytes,
    int_kw_bytes,
    sep_bytes,
    func_kw_bytes,
    lparen_bytes,
    endfunc_bytes,
};

verus! {

/// What a name in scope stands for.
#[derive(Debug, Clone, Copy, PartialEq, Eq, Structural)]
pub enum Type {
    Var,
    Arr,
    Fn,
}

/// One block's symbol table: names (each at most once) and what they stand for.
pub type Scope = Vec<(Vec<u8>, Type)>;

/// The parser and code generator of one source file: the lexer, the lookahead
/// buffer, the scope stack, the first error, the temporary counter and the IR
/// emitted so far.
pub struct Par {
    pub lex: Lex,
    pub toks: SliceDeque<Tok>,
    pub problem: Option<ParseError>,
    pub t_count: usize,
    pub types: Vec<Scope>,
    pub out: Vec<u8>,
    pub consumed: Ghost<int>,
}

/// How a call producing an operand value relates the parser before (`a`) and
/// after (`b`) to the grammar's outcome `res`.
pub open spec fn post_val(a: &Par, b: &Par, r: Option<Vec<u8>>, res: PRes<Seq<u8>>) -> bool {
    match res {
        PRes::Done { pos, val, out, temps } => {
            &&& r matches Some(v) && v@ == val
            &&& b.p() == pos
            &&& b.t_count == temps
            &&& b.out@ == a.out@ + out
            &&& b.problem is None
            &&& b.t_count - a.t_count < b.p() - a.p()
        },
        PRes::Stop { out, err } => {
            &&& r is None
            &&& b.out@ == a.out@ + out
            &&& b.problem == err
        },
    }
}

/// As `post_val`, for a call producing the values of call arguments.
pub open spec fn post_vals(a: &Par, b: &Par, r: Option<Vec<Vec<u8>>>, res: PRes<Seq<Seq<u8>>>) -> bool {
    match res {
        PRes::Done { pos, val, out, temps } => {
            &&& r matches Some(v) && v@.map_values(|x: Vec<u8>| x@) == val
            &&& b.p() == pos
            &&& b.t_count == temps
            &&& b.out@ == a.out@ + out
            &&& b.problem is None
            &&& b.t_count - a.t_count < b.p() - a.p()
        },
        PRes::Stop { out, err } => {
            &&& r is None
            &&& b.out@ == a.out@ + out
            &&& b.problem == err
        },
    }
}

/// The parser `b` continues `a`: same input, invariant kept, position and
/// temporary counter not gone back.
pub open spec fn steady(a: &Par, b: &Par) -> bool {
    &&& b.inv()
    &&& b.lex.bytes@ == a.lex.bytes@
    &&& b.t_count >= a.t_count
    &&& b.p() >= a.p()
}

/// As `post_val`, for a production without a value; on success it consumed
/// at least one token.
pub open spec fn post_unit(a: &Par, b: &Par, r: Option<()>, res: PRes<()>) -> bool {
    match res {
        PRes::Done { pos, val: _, out, temps } => {
            &&& r is Some
            &&& b.p() == pos
            &&& b.t_count == temps
            &&& b.out@ == a.out@ + out
            &&& b.problem is None
            &&& b.p() > a.p()
        },
        PRes::Stop { out, err } => {
            &&& r is None
            &&& b.out@ == a.out@ + out
            &&& b.problem == err
        },
    }
}

/// The names of a list of byte strings.
pub open spec fn names_of(v: Seq<Vec<u8>>) -> Seq<Seq<u8>> {
    v.map_values(|x: Vec<u8>| x@)
}

/// Whether `name` is declared in `scope`.
pub fn scope_has(scope: &Scope, name: &Vec<u8>) -> (r: bool)
    ensures
        r == exists|j: int| 0 <= j < scope@.len() && (#[trigger] scope@[j]).0@ == name@,
{
    let mut j: usize = 0;
    while j < scope.len()
        invariant
            j <= scope@.len(),
            forall|k: int| 0 <= k < j ==> (#[trigger] scope@[k]).0@ != name@,
        decreases scope@.len() - j,
    {
        if crate::lexer::bytes_eq(&scope[j].0, name) {
            return true;
        }
        j = j + 1;
    }
    false
}

/// What `name` stands for in `sc`, from its first entry at or after `k`.
pub open spec fn scope_find(sc: Seq<(Vec<u8>, Type)>, name: Seq<u8>, k: int) -> Option<Type>
    decreases sc.len() - k,
{
    if k < 0 || k >= sc.len() {
        None
    } else if sc[k].0@ == name {
        Some(sc[k].1)
    } else {
        scope_find(sc, name, k + 1)
    }
}

/// What `name` stands for in the innermost of the first `i` scopes that
/// declares it.
pub open spec fn lookup(scopes: Seq<Scope>, i: int, name: Seq<u8>) -> Option<Type>
    decreases i,
{
    if i <= 0 || i > scopes.len() {
        None
    } else {
        match scope_find(scopes[i - 1]@, name, 0) {
            Some(t) => Some(t),
            None => lookup(scopes, i - 1, name),
        }
    }
}

/// What `name` stands for in `scope`, if it is declared there.
pub fn scope_get(scope: &Scope, name: &Vec<u8>) -> (r: Option<Type>)
    ensures
        r == scope_find(scope@, name@, 0),
{
    let mut j: usize = 0;
    while j < scope.len()
        invariant
            j <= scope@.len(),
            scope_find(scope@, name@, j as int) == scope_find(scope@, name@, 0),
        decreases scope@.len() - j,
    {
        if crate::lexer::bytes_eq(&scope[j].0, name) {
            return Some(scope[j].1);
        }
        j = j + 1;
    }
    None
}

/// No name is declared twice within one scope.
#[verifier::opaque]
pub open spec fn scopes_unique(scopes: Seq<Scope>) -> bool {
    forall|k: int, a: int, b: int|
        0 <= k < scopes.len() && 0 <= a < b < scopes[k]@.len() ==> (#[trigger] scopes[k]@[a]).0@
            != (#[trigger] scopes[k]@[b]).0@
}

proof fn lemma_unique_push(scopes: Seq<Scope>, sc: Scope)
    requires
        scopes_unique(scopes),
        forall|a: int, b: int| 0 <= a < b < sc@.len() ==> (#[trigger] sc@[a]).0@ != (#[trigger] sc@[b]).0@,
    ensures
        scopes_unique(scopes.push(sc)),
{
    reveal(scopes_unique);
    let n = scopes.push(sc);
    assert forall|k: int, a: int, b: int|
        0 <= k < n.len() && 0 <= a < b < n[k]@.len() implies (#[trigger] n[k]@[a]).0@
            != (#[trigger] n[k]@[b]).0@ by {
        if k < scopes.len() {
            assert(n[k] == scopes[k]);
        } else {
            assert(n[k] == sc);
        }
    }
}

proof fn lemma_unique_pop(scopes: Seq<Scope>)
    requires
        scopes_unique(scopes),
        scopes.len() >= 1,
    ensures
        scopes_unique(scopes.drop_last()),
{
    reveal(scopes_unique);
    let n = scopes.drop_last();
    assert forall|k: int, a: int, b: int|
        0 <= k < n.len() && 0 <= a < b < n[k]@.len() implies (#[trigger] n[k]@[a]).0@
            != (#[trigger] n[k]@[b]).0@ by {
        assert(n[k] == scopes[k]);
    }
}

impl Par {
    /// The meaningful tokens of the whole input.
    pub open spec fn ts(&self) -> Seq<STok> {
        token_seq(self.lex.bytes@)
    }

    /// The number of tokens consumed so far.
    pub open spec fn p(&self) -> int {
        self.consumed@
    }

    /// The lookahead buffer, front first.
    pub open spec fn buf(&self) -> Seq<Tok> {
        deque_items(self.toks)
    }

    /// The buffer holds the tokens that follow the consumed ones, and the lexer
    /// stands after the buffered ones; the counter stays below the position;
    /// the scope stack is never empty; the lexer is on its way to the state it
    /// settles in on the whole input; no scope declares a name twice.
    pub open spec fn inv(&self) -> bool {
        &&& self.lex.wf()
        &&& 0 <= self.p() <= self.ts().len()
        &&& forall|i: int|
            0 <= i < self.buf().len() ==> #[trigger] self.buf()[i]@ == tok_at(
                self.ts(),
                self.p() + i,
            )
        &&& tokens_from(self.lex.bytes@, self.lex.state()) == rest(
            self.ts(),
            self.p() + self.buf().len(),
        )
        &&& lex_end(self.lex.bytes@, self.lex.state()) == lex_result(self.lex.bytes@)
        &&& self.ts().len() <= self.lex.bytes@.len()
        &&& self.t_count <= self.p()
        &&& self.types@.len() >= 1
        &&& scopes_unique(self.types@)
    }

    /// A parser at the start of `bytes`, with the root scope.
    pub fn make(bytes: Vec<u8>) -> (r: Par)
        requires
            bytes@.len() < usize::MAX,
        ensures
            r.inv(),
            r.lex.bytes@ == bytes@,
            r.p() == 0,
            r.t_count == 0,
            r.out@ == Seq::<u8>::empty(),
            r.problem is None,
            r.lex.problem is None,
            r.lex.state() == start_state(),
            r.buf() == Seq::<Tok>::empty(),
            r.types@.len() == 1,
            r.types@[0]@.len() == 0,
    {
        let mut types: Vec<Scope> = Vec::new();
        let root: Scope = Vec::new();
        proof {
            reveal(scopes_unique);
            lemma_unique_push(types@, root);
        }
        types.push(root);
        let r = Par {
            lex: Lex::make(bytes),
            toks: deque_new(),
            problem: None,
            t_count: 0,
            types,
            out: Vec::new(),
            consumed: Ghost(0),
        };
        assert(rest(r.ts(), 0) =~= r.ts());
        proof {
            lemma_tokens_len(r.lex.bytes@, start_state());
        }
        r
    }

    /// Fills the lookahead buffer to at least `amt` tokens, pulling from the
    /// lexer exactly the tokens missing; a buffer that already holds `amt`
    /// tokens is left as it is.
    pub fn tokens(&mut self, amt: usize)
        requires
            old(self).inv(),
        ensures
            final(self).inv(),
            final(self).buf().len() == if old(self).buf().len() >= amt {
                old(self).buf().len() as int
            } else {
                amt as int
            },
            final(self).buf().subrange(0, old(self).buf().len() as int) == old(self).buf(),
            old(self).buf().len() >= amt ==> final(self).lex == old(self).lex && final(self).toks
                == old(self).toks,
            final(self).lex.bytes@ == old(self).lex.bytes@,
            final(self).consumed == old(self).consumed,
            final(self).t_count == old(self).t_count,
            final(self).out == old(self).out,
            final(self).problem == old(self).problem,
            final(self).types == old(self).types,
    {
        while deque_len(&self.toks) < amt
            invariant
                self.inv(),
                self.lex.bytes@ == old(self).lex.bytes@,
                self.consumed == old(self).consumed,
                self.t_count == old(self).t_count,
                self.out == old(self).out,
                self.problem == old(self).problem,
                self.types == old(self).types,
                self.buf().len() >= old(self).buf().len(),
                self.buf().len() > old(self).buf().len() ==> self.buf().len() <= amt,
                self.buf().subrange(0, old(self).buf().len() as int) == old(self).buf(),
                self.buf().len() == old(self).buf().len() ==> self.lex == old(self).lex
                    && self.toks == old(self).toks,
            decreases amt - self.buf().len(),
        {
            let ghost s = self.lex.bytes@;
            let ghost n = self.p() + self.buf().len();
            let ghost before = self.buf();
            proof {
                lemma_next_spec(s, self.lex.state());
                lemma_rest_step(self.ts(), n);
                lemma_lex_end_step(s, self.lex.state());
            }
            let t = self.lex.next();
            deque_push_back(&mut self.toks, t);
            assert(self.buf().subrange(0, old(self).buf().len() as int) =~= before.subrange(
                0,
                old(self).buf().len() as int,
            ));
        }
    }

    /// Discards the first `amt` buffered tokens (all of them if fewer are
    /// buffered); the end sentinel is never among them.
    pub fn consume(&mut self, amt: usize)
        requires
            old(self).inv(),
            ({
                let m = if amt <= old(self).buf().len() { amt as int } else { old(self).buf().len() as int };
                m == 0 || tok_at(old(self).ts(), old(self).p() + m - 1) != STok::Empty
            }),
        ensures
            final(self).inv(),
            ({
                let m = if amt <= old(self).buf().len() { amt as int } else { old(self).buf().len() as int };
                &&& final(self).p() == old(self).p() + m
                &&& final(self).buf() == old(self).buf().skip(m)
            }),
            final(self).lex == old(self).lex,
            final(self).t_count == old(self).t_count,
            final(self).out == old(self).out,
            final(self).problem == old(self).problem,
            final(self).types == old(self).types,
    {
        let len = deque_len(&self.toks);
        let amt = if amt <= len { amt } else { len };
        let mut i: usize = 0;
        while i < amt
            invariant
                i <= amt,
                amt <= old(self).buf().len(),
                amt == 0 || tok_at(old(self).ts(), old(self).p() + amt - 1) != STok::Empty,
                self.p() == old(self).p() + i,
                self.buf() == old(self).buf().skip(i as int),
                self.lex == old(self).lex,
                self.t_count == old(self).t_count,
                self.out == old(self).out,
                self.problem == old(self).problem,
                self.types == old(self).types,
                old(self).inv(),
            decreases amt - i,
        {
            let _ = deque_pop_front(&mut self.toks);
            self.consumed = Ghost(self.consumed@ + 1);
            i = i + 1;
            assert(self.buf() =~= old(self).buf().skip(i as int));
        }
        assert forall|j: int| 0 <= j < self.buf().len() implies #[trigger] self.buf()[j]@
            == tok_at(self.ts(), self.p() + j) by {
            assert(self.buf()[j] == old(self).buf()[j + amt]);
        }
        assert(rest(self.ts(), self.p() + self.buf().len()) == rest(
            old(self).ts(),
            old(self).p() + old(self).buf().len(),
        ));
    }

    /// The buffered token `i` places ahead.
    pub fn peek(&self, i: usize) -> (r: &Tok)
        requires
            self.inv(),
            i < self.buf().len(),
        ensures
            r@ == tok_at(self.ts(), self.p() + i),
    {
        deque_get(&self.toks, i)
    }

    /// The variant of the token `i` places ahead, reading it in if needed.
    pub fn kind_at(&mut self, i: usize) -> (k: Kind)
        requires
            old(self).inv(),
            i < 8,
        ensures
            final(self).inv(),
            final(self).buf().len() > i,
            k == kind_of(tok_at(final(self).ts(), final(self).p() + i)),
            final(self).lex.bytes@ == old(self).lex.bytes@,
            final(self).consumed == old(self).consumed,
            final(self).t_count == old(self).t_count,
            final(self).out == old(self).out,
            final(self).problem == old(self).problem,
            final(self).types == old(self).types,
    {
        self.tokens(i + 1);
        kind(self.peek(i))
    }

    /// The bytes of the identifier or number `i` places ahead (already read in).
    pub fn word_at(&self, i: usize) -> (r: Vec<u8>)
        requires
            self.inv(),
            i < self.buf().len(),
        ensures
            r@ == payload(tok_at(self.ts(), self.p() + i)),
    {
        payload_of(self.peek(i))
    }

    /// A fresh temporary: the counter's current name; the counter moves on and
    /// nothing else changes (no IR is emitted).
    pub fn temp_name(&mut self) -> (r: Vec<u8>)
        requires
            old(self).t_count < usize::MAX,
        ensures
            old(self).inv() && old(self).t_count < old(self).p() ==> final(self).inv(),
            r@ == temp_name(old(self).t_count as int),
            final(self).t_count == old(self).t_count + 1,
            final(self).lex == old(self).lex,
            final(self).toks == old(self).toks,
            final(self).consumed == old(self).consumed,
            final(self).out == old(self).out,
            final(self).problem == old(self).problem,
            final(self).types == old(self).types,
    {
        let r = temp_name_bytes(self.t_count);
        self.t_count = self.t_count + 1;
        r
    }

    /// Appends IR text.
    pub fn emit(&mut self, v: &Vec<u8>)
        requires
            old(self).inv(),
        ensures
            final(self).inv(),
            final(self).out@ == old(self).out@ + v@,
            final(self).lex == old(self).lex,
            final(self).toks == old(self).toks,
            final(self).consumed == old(self).consumed,
            final(self).t_count == old(self).t_count,
            final(self).problem == old(self).problem,
            final(self).types == old(self).types,
    {
        push_all(&mut self.out, v);
    }

    /// The operator name of the next token at precedence level `lv`, if it is
    /// one (the token is read in).
    pub fn op_at(&mut self, lv: usize) -> (r: Option<Vec<u8>>)
        requires
            old(self).inv(),
            lv <= 3,
        ensures
            final(self).inv(),
            final(self).buf().len() >= 1,
            final(self).lex.bytes@ == old(self).lex.bytes@,
            final(self).consumed == old(self).consumed,
            final(self).t_count == old(self).t_count,
            final(self).out == old(self).out,
            final(self).problem == old(self).problem,
            final(self).types == old(self).types,
            match op_of(lv as nat, tok_at(final(self).ts(), final(self).p())) {
                Some(o) => r matches Some(v) && v@ == o,
                None => r is None,
            },
    {
        let k = self.kind_at(0);
        if lv == 0 {
            if k == Kind::Multiply {
                Some(op_mult_bytes())
            } else if k == Kind::Divide {
                Some(op_div_bytes())
            } else if k == Kind::Modulus {
                Some(op_mod_bytes())
            } else {
                None
            }
        } else if lv == 1 {
            if k == Kind::Plus {
                Some(op_add_bytes())
            } else if k == Kind::Subtract {
                Some(op_sub_bytes())
            } else {
                None
            }
        } else if lv == 2 {
            if k == Kind::Less {
                Some(op_lt_bytes())
            } else if k == Kind::Greater {
                Some(op_gt_bytes())
            } else if k == Kind::GreaterEqual {
                Some(op_ge_bytes())
            } else if k == Kind::LessEqual {
                Some(op_le_bytes())
            } else {
                None
            }
        } else {
            if k == Kind::Equality {
                Some(op_eq_bytes())
            } else if k == Kind::NotEqual {
                Some(op_neq_bytes())
            } else {
                None
            }
        }
    }

    /// Records the first error.
    pub fn fail(&mut self, e: ParseError)
        requires
            old(self).inv(),
        ensures
            final(self).inv(),
            final(self).problem == Some(e),
            final(self).lex == old(self).lex,
            final(self).toks == old(self).toks,
            final(self).consumed == old(self).consumed,
            final(self).t_count == old(self).t_count,
            final(self).out == old(self).out,
            final(self).types == old(self).types,
    {
        self.problem = Some(e);
    }
    /// A base expression; its value is a name, a number or a fresh temporary.
    #[verifier::spinoff_prover]
    pub fn base_expr(&mut self) -> (r: Option<Vec<u8>>)
        requires
            old(self).inv(),
            old(self).problem is None,
        ensures
            steady(old(self), final(self)),
            final(self).types == old(self).types,
            post_val(old(self), final(self), r, base(old(self).ts(), old(self).p(), old(self).t_count as int)),
        decreases old(self).ts().len() - old(self).p(), 0int,
    {
        let ghost ts = self.ts();
        let ghost p_start = self.p();
        let ghost t0 = self.t_count as int;
        let k = self.kind_at(0);
        if k == Kind::Identifier {
            let id = self.word_at(0);
            self.consume(1);
            let k1 = self.kind_at(0);
            if k1 == Kind::LeftBracket {
                self.index_tail(id)
            } else if k1 == Kind::LeftParen {
                self.call_tail(id)
            } else {
                Some(id)
            }
        } else if k == Kind::Number {
            let num = self.word_at(0);
            self.consume(1);
            Some(num)
        } else if k == Kind::LeftParen {
            self.consume(1);
            let e = match self.expr() {
                Some(v) => v,
                None => {
                    return None;
                },
            };
            let k2 = self.kind_at(0);
            if k2 == Kind::RightParen {
                self.consume(1);
                Some(e)
            } else {
                self.fail(ParseError::ExpectedRightParen);
                None
            }
        } else if k == Kind::Empty {
            None
        } else {
            self.fail(ParseError::UnexpectedToken);
            None
        }
    }

    /// An array element `id[E]`, from the buffered `[`.
    #[verifier::spinoff_prover]
    pub fn index_tail(&mut self, id: Vec<u8>) -> (r: Option<Vec<u8>>)
        requires
            old(self).inv(),
            old(self).problem is None,
            old(self).buf().len() >= 1,
            tok_at(old(self).ts(), old(self).p()) == STok::LeftBracket,
        ensures
            steady(old(self), final(self)),
            final(self).types == old(self).types,
            post_val(
                old(self),
                final(self),
                r,
                index_tail(old(self).ts(), old(self).p(), id@, old(self).t_count as int),
            ),
        decreases old(self).ts().len() - old(self).p(), 1int,
    {
        let ghost out0 = self.out@;
        self.consume(1);
        let ghost e = bin_expr(self.ts(), 3, self.p(), self.t_count as int);
        let index = match self.expr() {
            Some(v) => v,
            None => {
                return None;
            },
        };
        let k2 = self.kind_at(0);
        if k2 == Kind::RightBracket {
            self.consume(1);
            let temp = self.temp_name();
            let line = load_line_bytes(&temp, &id, &index);
            self.emit(&line);
            assert(self.out@ =~= out0 + (out_of(e) + line@));
            Some(temp)
        } else {
            self.fail(ParseError::ExpectedRightBracket);
            None
        }
    }

    /// A call `id(args)`, from the buffered `(`.
    #[verifier::spinoff_prover]
    pub fn call_tail(&mut self, id: Vec<u8>) -> (r: Option<Vec<u8>>)
        requires
            old(self).inv(),
            old(self).problem is None,
            old(self).buf().len() >= 1,
            tok_at(old(self).ts(), old(self).p()) == STok::LeftParen,
        ensures
            steady(old(self), final(self)),
            final(self).types == old(self).types,
            post_val(
                old(self),
                final(self),
                r,
                call_tail(old(self).ts(), old(self).p(), id@, old(self).t_count as int),
            ),
        decreases old(self).ts().len() - old(self).p(), 1int,
    {
        let ghost out0 = self.out@;
        self.consume(1);
        let ghost e = args(self.ts(), self.p(), self.t_count as int);
        let arguments = match self.args() {
            Some(a) => a,
            None => {
                return None;
            },
        };
        assert(self.t_count < self.p() && self.t_count < usize::MAX);
        let temp = self.temp_name();
        assert(self.inv());
        let head = call_open_bytes(&temp, &id);
        let list = args_text_bytes(&arguments);
        self.emit(&head);
        self.emit(&list);
        assert(self.out@ =~= out0 + (out_of(e) + head@ + list@));
        let k2 = self.kind_at(0);
        if k2 == Kind::RightParen {
            let close = rparen_nl_bytes();
            self.emit(&close);
            assert(self.out@ =~= out0 + (out_of(e) + head@ + list@ + close@));
            self.consume(1);
            Some(temp)
        } else {
            self.fail(ParseError::ExpectedCallClose);
            None
        }
    }

    /// An operand of precedence level `lv`.
    pub fn operand(&mut self, lv: usize) -> (r: Option<Vec<u8>>)
        requires
            old(self).inv(),
            old(self).problem is None,
            lv <= 3,
        ensures
            steady(old(self), final(self)),
            final(self).types == old(self).types,
            post_val(
                old(self),
                final(self),
                r,
                operand(old(self).ts(), lv as nat, old(self).p(), old(self).t_count as int),
            ),
        decreases old(self).ts().len() - old(self).p(), 3 * lv + 2,
    {
        if lv == 0 {
            self.base_expr()
        } else if lv == 1 {
            self.mul_expr()
        } else if lv == 2 {
            self.add_expr()
        } else {
            self.bool_expr()
        }
    }

    /// A left-associative chain of operands of level `lv`: each operator
    /// emits `%OP T, LHS, RHS` into a fresh temporary `T`, which becomes the
    /// left operand.
    #[verifier::spinoff_prover]
    pub fn chain(&mut self, lv: usize) -> (r: Option<Vec<u8>>)
        requires
            old(self).inv(),
            old(self).problem is None,
            lv <= 3,
        ensures
            steady(old(self), final(self)),
            final(self).types == old(self).types,
            post_val(
                old(self),
                final(self),
                r,
                bin_expr(old(self).ts(), lv as nat, old(self).p(), old(self).t_count as int),
            ),
        decreases old(self).ts().len() - old(self).p(), 3 * lv + 3,
    {
        let ghost ts = self.ts();
        let ghost p_start = self.p();
        let ghost t0 = self.t_count as int;
        let ghost out0 = self.out@;
        let ghost first = operand(ts, lv as nat, p_start, t0);
        let mut lhs = match self.operand(lv) {
            Some(v) => v,
            None => {
                return None;
            },
        };
        let ghost mut o: Seq<u8> = out_of(first);
        loop
            invariant
                self.inv(),
                self.ts() == ts,
                self.lex.bytes@ == old(self).lex.bytes@,
                self.problem is None,
                self.types == old(self).types,
                lv <= 3,
                p_start == old(self).p(),
                t0 == old(self).t_count,
                out0 == old(self).out@,
                p_start < self.p(),
                t0 <= self.t_count,
                self.t_count - t0 < self.p() - p_start,
                self.out@ == out0 + o,
                bin_rest(ts, lv as nat, self.p(), lhs@, o, self.t_count as int) == bin_expr(
                    ts,
                    lv as nat,
                    p_start,
                    t0,
                ),
            decreases ts.len() - self.p(),
        {
            let op = self.op_at(lv);
            match op {
                None => {
                    return Some(lhs);
                },
                Some(op) => {
                    let ghost q = self.p();
                    let ghost o_before = self.out@;
                    self.consume(1);
                    let ghost right = operand(ts, lv as nat, q + 1, self.t_count as int);
                    let rhs = match self.operand(lv) {
                        Some(v) => v,
                        None => {
                            assert(self.out@ =~= out0 + (o + out_of(right)));
                            return None;
                        },
                    };
                    let temp = self.temp_name();
                    let line = bin_line_bytes(&op, &temp, &lhs, &rhs);
                    self.emit(&line);
                    proof {
                        o = o + out_of(right) + line@;
                        assert(self.out@ =~= out0 + o);
                    }
                    lhs = temp;
                },
            }
        }
    }

    /// A multiplicative chain (`*`, `/`, `%`).
    pub fn mul_expr(&mut self) -> (r: Option<Vec<u8>>)
        requires
            old(self).inv(),
            old(self).problem is None,
        ensures
            steady(old(self), final(self)),
            final(self).types == old(self).types,
            post_val(old(self), final(self), r, bin_expr(old(self).ts(), 0, old(self).p(), old(self).t_count as int)),
        decreases old(self).ts().len() - old(self).p(), 4int,
    {
        self.chain(0)
    }

    /// An additive chain (`+`, `-`).
    pub fn add_expr(&mut self) -> (r: Option<Vec<u8>>)
        requires
            old(self).inv(),
            old(self).problem is None,
        ensures
            steady(old(self), final(self)),
            final(self).types == old(self).types,
            post_val(old(self), final(self), r, bin_expr(old(self).ts(), 1, old(self).p(), old(self).t_count as int)),
        decreases old(self).ts().len() - old(self).p(), 7int,
    {
        self.chain(1)
    }

    /// A relational chain (`<`, `>`, `>=`, `<=`).
    pub fn bool_expr(&mut self) -> (r: Option<Vec<u8>>)
        requires
            old(self).inv(),
            old(self).problem is None,
        ensures
            steady(old(self), final(self)),
            final(self).types == old(self).types,
            post_val(old(self), final(self), r, bin_expr(old(self).ts(), 2, old(self).p(), old(self).t_count as int)),
        decreases old(self).ts().len() - old(self).p(), 10int,
    {
        self.chain(2)
    }

    /// A full expression: an equality chain (`==`, `!=`).
    pub fn expr(&mut self) -> (r: Option<Vec<u8>>)
        requires
            old(self).inv(),
            old(self).problem is None,
        ensures
            steady(old(self), final(self)),
            final(self).types == old(self).types,
            post_val(old(self), final(self), r, bin_expr(old(self).ts(), 3, old(self).p(), old(self).t_count as int)),
        decreases old(self).ts().len() - old(self).p(), 13int,
    {
        self.chain(3)
    }

    /// The arguments of a call: expressions separated by `,`.
    #[verifier::spinoff_prover]
    pub fn args(&mut self) -> (r: Option<Vec<Vec<u8>>>)
        requires
            old(self).inv(),
            old(self).problem is None,
        ensures
            steady(old(self), final(self)),
            final(self).types == old(self).types,
            post_vals(old(self), final(self), r, args(old(self).ts(), old(self).p(), old(self).t_count as int)),
        decreases old(self).ts().len() - old(self).p(), 14int,
    {
        let ghost ts = self.ts();
        let ghost p_start = self.p();
        let ghost t0 = self.t_count as int;
        let ghost out0 = self.out@;
        let ghost first = bin_expr(ts, 3, p_start, t0);
        let mut arguments: Vec<Vec<u8>> = Vec::new();
        let v = match self.expr() {
            Some(v) => v,
            None => {
                return None;
            },
        };
        arguments.push(v);
        assert(arguments@.map_values(|x: Vec<u8>| x@) =~= seq![v@]);
        let ghost mut o: Seq<u8> = out_of(first);
        loop
            invariant
                self.inv(),
                self.ts() == ts,
                self.lex.bytes@ == old(self).lex.bytes@,
                self.problem is None,
                self.types == old(self).types,
                p_start == old(self).p(),
                t0 == old(self).t_count,
                out0 == old(self).out@,
                p_start < self.p(),
                t0 <= self.t_count,
                self.t_count - t0 < self.p() - p_start,
                self.out@ == out0 + o,
                args_rest(
                    ts,
                    self.p(),
                    arguments@.map_values(|x: Vec<u8>| x@),
                    o,
                    self.t_count as int,
                ) == args(ts, p_start, t0),
            decreases ts.len() - self.p(),
        {
            let k = self.kind_at(0);
            if k != Kind::Comma {
                return Some(arguments);
            }
            let ghost q = self.p();
            self.consume(1);
            let ghost next = bin_expr(ts, 3, q + 1, self.t_count as int);
            match self.expr() {
                Some(v) => {
                    let ghost before = arguments@.map_values(|x: Vec<u8>| x@);
                    arguments.push(v);
                    assert(arguments@.map_values(|x: Vec<u8>| x@) =~= before.push(v@));
                    proof {
                        o = o + out_of(next);
                    }
                },
                None => {
                    if self.problem.is_none() {
                        self.fail(ParseError::ExpectedArgument);
                    }
                    assert(self.out@ =~= out0 + (o + out_of(next)));
                    return None;
                },
            }
        }
    }
    /// The form of the statement at the front, from a window of eight tokens.
    pub fn form(&mut self) -> (f: Form)
        requires
            old(self).inv(),
        ensures
            final(self).inv(),
            final(self).buf().len() >= 8,
            f == form_of(final(self).ts(), final(self).p()),
            final(self).lex.bytes@ == old(self).lex.bytes@,
            final(self).consumed == old(self).consumed,
            final(self).t_count == old(self).t_count,
            final(self).out == old(self).out,
            final(self).problem == old(self).problem,
            final(self).types == old(self).types,
    {
        self.tokens(8);
        let w0 = kind(self.peek(0));
        let w1 = kind(self.peek(1));
        let w2 = kind(self.peek(2));
        let w3 = kind(self.peek(3));
        let w4 = kind(self.peek(4));
        let w5 = kind(self.peek(5));
        if w0 == Kind::Int && w1 == Kind::LeftBracket && w2 == Kind::Number && w3 == Kind::RightBracket
            && w4 == Kind::Identifier && w5 == Kind::Semicolon {
            Form::ArrayDecl
        } else if w0 == Kind::Int && w1 == Kind::Identifier && w2 == Kind::Semicolon {
            Form::Decl
        } else if w0 == Kind::Int && w1 == Kind::Identifier && w2 == Kind::Assign {
            Form::DeclInit
        } else if w0 == Kind::Identifier && w1 == Kind::Assign {
            Form::Assign
        } else if w0 == Kind::Identifier && w1 == Kind::LeftBracket {
            Form::ArrayAssign
        } else if w0 == Kind::While {
            Form::While
        } else if w0 == Kind::If {
            Form::If
        } else if w0 == Kind::Print && w1 == Kind::LeftParen {
            Form::Print
        } else if w0 == Kind::Read && w1 == Kind::LeftParen && w2 == Kind::Identifier && w3
            == Kind::RightParen && w4 == Kind::Semicolon {
            Form::Read
        } else if w0 == Kind::Read && w1 == Kind::LeftParen && w2 == Kind::Identifier && w3
            == Kind::LeftBracket {
            Form::ReadArray
        } else if w0 == Kind::Return {
            Form::Return
        } else if w0 == Kind::Break && w1 == Kind::Semicolon {
            Form::Break
        } else if w0 == Kind::Continue && w1 == Kind::Semicolon {
            Form::Continue
        } else {
            Form::Invalid
        }
    }

    /// Ends a statement at a `;`.
    fn end_semi(&mut self) -> (r: Option<()>)
        requires
            old(self).inv(),
            old(self).problem is None,
        ensures
            final(self).inv(),
            final(self).lex.bytes@ == old(self).lex.bytes@,
            final(self).t_count == old(self).t_count,
            final(self).out == old(self).out,
            final(self).types == old(self).types,
            tok_at(old(self).ts(), old(self).p()) == STok::Semicolon ==> r is Some
                && final(self).p() == old(self).p() + 1 && final(self).problem is None,
            tok_at(old(self).ts(), old(self).p()) != STok::Semicolon ==> r is None
                && final(self).p() == old(self).p() && final(self).problem == Some(
                ParseError::MissingSemicolon,
            ),
    {
        let k = self.kind_at(0);
        if k == Kind::Semicolon {
            self.consume(1);
            Some(())
        } else {
            self.fail(ParseError::MissingSemicolon);
            None
        }
    }

    /// `int x = E;`
    #[verifier::spinoff_prover]
    pub fn init_stmt(&mut self) -> (r: Option<()>)
        requires
            old(self).inv(),
            old(self).problem is None,
            old(self).buf().len() >= 3,
            form_of(old(self).ts(), old(self).p()) == Form::DeclInit,
        ensures
            steady(old(self), final(self)),
            final(self).types == old(self).types,
            post_unit(old(self), final(self), r, init_stmt(old(self).ts(), old(self).p(), old(self).t_count as int)),
    {
        let ghost out0 = self.out@;
        let id = self.word_at(1);
        self.consume(3);
        let ghost e = expr(self.ts(), self.p(), self.t_count as int);
        let rhs = match self.expr() {
            Some(v) => v,
            None => {
                return None;
            },
        };
        let l1 = int_line_bytes(&id);
        let l2 = mov_line_bytes(&id, &rhs);
        self.emit(&l1);
        self.emit(&l2);
        assert(self.out@ =~= out0 + (out_of(e) + l1@ + l2@));
        self.end_semi()
    }

    /// `x = E;`
    #[verifier::spinoff_prover]
    pub fn assign_stmt(&mut self) -> (r: Option<()>)
        requires
            old(self).inv(),
            old(self).problem is None,
            old(self).buf().len() >= 2,
            form_of(old(self).ts(), old(self).p()) == Form::Assign,
        ensures
            steady(old(self), final(self)),
            final(self).types == old(self).types,
            post_unit(old(self), final(self), r, assign_stmt(old(self).ts(), old(self).p(), old(self).t_count as int)),
    {
        let ghost out0 = self.out@;
        let id = self.word_at(0);
        self.consume(2);
        let ghost e = expr(self.ts(), self.p(), self.t_count as int);
        let rhs = match self.expr() {
            Some(v) => v,
            None => {
                return None;
            },
        };
        let l = mov_line_bytes(&id, &rhs);
        self.emit(&l);
        assert(self.out@ =~= out0 + (out_of(e) + l@));
        self.end_semi()
    }

    /// `x[I] = E;`
    #[verifier::spinoff_prover]
    pub fn store_stmt(&mut self) -> (r: Option<()>)
        requires
            old(self).inv(),
            old(self).problem is None,
            old(self).buf().len() >= 2,
            form_of(old(self).ts(), old(self).p()) == Form::ArrayAssign,
        ensures
            steady(old(self), final(self)),
            final(self).types == old(self).types,
            post_unit(old(self), final(self), r, store_stmt(old(self).ts(), old(self).p(), old(self).t_count as int)),
    {
        let ghost out0 = self.out@;
        let id = self.word_at(0);
        self.consume(2);
        let ghost e1 = expr(self.ts(), self.p(), self.t_count as int);
        let index = match self.expr() {
            Some(v) => v,
            None => {
                return None;
            },
        };
        let k0 = self.kind_at(0);
        let k1 = self.kind_at(1);
        if !(k0 == Kind::RightBracket && k1 == Kind::Assign) {
            self.fail(ParseError::InvalidSyntax);
            return None;
        }
        self.consume(2);
        let ghost e2 = expr(self.ts(), self.p(), self.t_count as int);
        let rhs = match self.expr() {
            Some(v) => v,
            None => {
                assert(self.out@ =~= out0 + (out_of(e1) + out_of(e2)));
                return None;
            },
        };
        let k2 = self.kind_at(0);
        if k2 == Kind::Semicolon {
            self.consume(1);
            let l = store_line_bytes(&id, &index, &rhs);
            self.emit(&l);
            assert(self.out@ =~= out0 + (out_of(e1) + out_of(e2) + l@));
            Some(())
        } else {
            self.fail(ParseError::MissingSemicolon);
            assert(self.out@ =~= out0 + (out_of(e1) + out_of(e2)));
            None
        }
    }

    /// `print(E);`
    #[verifier::spinoff_prover]
    pub fn print_stmt(&mut self) -> (r: Option<()>)
        requires
            old(self).inv(),
            old(self).problem is None,
            old(self).buf().len() >= 2,
            form_of(old(self).ts(), old(self).p()) == Form::Print,
        ensures
            steady(old(self), final(self)),
            final(self).types == old(self).types,
            post_unit(old(self), final(self), r, print_stmt(old(self).ts(), old(self).p(), old(self).t_count as int)),
    {
        let ghost out0 = self.out@;
        self.consume(2);
        let ghost e = expr(self.ts(), self.p(), self.t_count as int);
        let v = match self.expr() {
            Some(v) => v,
            None => {
                return None;
            },
        };
        let l = unary_line_bytes(out_kw_bytes(), &v);
        self.emit(&l);
        assert(self.out@ =~= out0 + (out_of(e) + l@));
        let k0 = self.kind_at(0);
        let k1 = self.kind_at(1);
        if k0 == Kind::RightParen && k1 == Kind::Semicolon {
            self.consume(2);
            Some(())
        } else {
            self.fail(ParseError::InvalidSyntax);
            None
        }
    }

    /// `read(x[I]);`
    #[verifier::spinoff_prover]
    pub fn read_elem_stmt(&mut self) -> (r: Option<()>)
        requires
            old(self).inv(),
            old(self).problem is None,
            old(self).buf().len() >= 4,
            form_of(old(self).ts(), old(self).p()) == Form::ReadArray,
        ensures
            steady(old(self), final(self)),
            final(self).types == old(self).types,
            post_unit(old(self), final(self), r, read_elem_stmt(old(self).ts(), old(self).p(), old(self).t_count as int)),
    {
        let ghost out0 = self.out@;
        let id = self.word_at(2);
        self.consume(4);
        let ghost e = expr(self.ts(), self.p(), self.t_count as int);
        let index = match self.expr() {
            Some(v) => v,
            None => {
                return None;
            },
        };
        let temp = self.temp_name();
        let l1 = unary_line_bytes(input_kw_bytes(), &temp);
        let l2 = store_line_bytes(&id, &index, &temp);
        self.emit(&l1);
        self.emit(&l2);
        assert(self.out@ =~= out0 + (out_of(e) + l1@ + l2@));
        let k0 = self.kind_at(0);
        let k1 = self.kind_at(1);
        let k2 = self.kind_at(2);
        if k0 == Kind::RightBracket && k1 == Kind::RightParen && k2 == Kind::Semicolon {
            self.consume(3);
            Some(())
        } else {
            self.fail(ParseError::InvalidSyntax);
            None
        }
    }

    /// `return E;`
    #[verifier::spinoff_prover]
    pub fn return_stmt(&mut self) -> (r: Option<()>)
        requires
            old(self).inv(),
            old(self).problem is None,
            old(self).buf().len() >= 1,
            form_of(old(self).ts(), old(self).p()) == Form::Return,
        ensures
            steady(old(self), final(self)),
            final(self).types == old(self).types,
            post_unit(old(self), final(self), r, return_stmt(old(self).ts(), old(self).p(), old(self).t_count as int)),
    {
        let ghost out0 = self.out@;
        self.consume(1);
        let ghost e = expr(self.ts(), self.p(), self.t_count as int);
        let v = match self.expr() {
            Some(v) => v,
            None => {
                return None;
            },
        };
        let l = unary_line_bytes(ret_kw_bytes(), &v);
        self.emit(&l);
        assert(self.out@ =~= out0 + (out_of(e) + l@));
        self.end_semi()
    }
    /// One statement, of the form its first tokens select.
    #[verifier::spinoff_prover]
    pub fn statement(&mut self) -> (r: Option<()>)
        requires
            old(self).inv(),
            old(self).problem is None,
        ensures
            steady(old(self), final(self)),
            post_unit(old(self), final(self), r, statement(old(self).ts(), old(self).p(), old(self).t_count as int)),
            form_of(old(self).ts(), old(self).p()) == Form::Invalid ==> final(self).p() == old(self).p(),
            r is Some ==> final(self).types@ == old(self).types@,
        decreases old(self).ts().len() - old(self).p(), 2int,
    {
        reveal(statement);
        let f = self.form();
        match f {
            Form::ArrayDecl => {
                let num = self.word_at(2);
                let id = self.word_at(4);
                self.consume(6);
                self.emit(&arr_line_bytes(&id, &num));
                Some(())
            },
            Form::Decl => {
                let id = self.word_at(1);
                self.consume(3);
                self.emit(&int_line_bytes(&id));
                Some(())
            },
            Form::DeclInit => self.init_stmt(),
            Form::Assign => self.assign_stmt(),
            Form::ArrayAssign => self.store_stmt(),
            Form::While => self.while_stmt(),
            Form::If => self.if_stmt(),
            Form::Print => self.print_stmt(),
            Form::Read => {
                let id = self.word_at(2);
                self.consume(5);
                self.emit(&unary_line_bytes(input_kw_bytes(), &id));
                Some(())
            },
            Form::ReadArray => self.read_elem_stmt(),
            Form::Return => self.return_stmt(),
            Form::Break => {
                self.consume(2);
                self.emit(&break_line_bytes());
                Some(())
            },
            Form::Continue => {
                self.consume(2);
                self.emit(&continue_line_bytes());
                Some(())
            },
            Form::Invalid => {
                self.fail(ParseError::InvalidSyntax);
                None
            },
        }
    }

    /// `while (E) BLOCK`
    #[verifier::spinoff_prover]
    pub fn while_stmt(&mut self) -> (r: Option<()>)
        requires
            old(self).inv(),
            old(self).problem is None,
            old(self).buf().len() >= 1,
            form_of(old(self).ts(), old(self).p()) == Form::While,
        ensures
            steady(old(self), final(self)),
            post_unit(old(self), final(self), r, while_stmt(old(self).ts(), old(self).p(), old(self).t_count as int)),
            r is Some ==> final(self).types@ == old(self).types@,
        decreases old(self).ts().len() - old(self).p(), 1int,
    {
        reveal(while_stmt);
        let ghost out0 = self.out@;
        self.consume(1);
        let head = while_kw_bytes();
        self.emit(&head);
        let ghost e = expr(self.ts(), self.p(), self.t_count as int);
        let cond = match self.expr() {
            Some(v) => v,
            None => {
                assert(self.out@ =~= out0 + (head@ + out_of(e)));
                return None;
            },
        };
        let l = cond_line_bytes(&cond);
        self.emit(&l);
        let ghost pre = head@ + out_of(e) + l@;
        assert(self.out@ =~= out0 + pre);
        let ghost b = block(self.ts(), self.p(), self.t_count as int);
        let r = self.statements();
        assert(self.out@ =~= out0 + (pre + out_of(b)));
        r
    }

    /// `if (E) BLOCK [else BLOCK]`
    #[verifier::spinoff_prover]
    pub fn if_stmt(&mut self) -> (r: Option<()>)
        requires
            old(self).inv(),
            old(self).problem is None,
            old(self).buf().len() >= 1,
            form_of(old(self).ts(), old(self).p()) == Form::If,
        ensures
            steady(old(self), final(self)),
            post_unit(old(self), final(self), r, if_stmt(old(self).ts(), old(self).p(), old(self).t_count as int)),
            r is Some ==> final(self).types@ == old(self).types@,
        decreases old(self).ts().len() - old(self).p(), 1int,
    {
        reveal(if_stmt);
        let ghost out0 = self.out@;
        self.consume(1);
        let head = if_kw_bytes();
        self.emit(&head);
        let ghost e = expr(self.ts(), self.p(), self.t_count as int);
        let cond = match self.expr() {
            Some(v) => v,
            None => {
                assert(self.out@ =~= out0 + (head@ + out_of(e)));
                return None;
            },
        };
        let l = cond_line_bytes(&cond);
        self.emit(&l);
        let ghost pre = head@ + out_of(e) + l@;
        assert(self.out@ =~= out0 + pre);
        let ghost b = block(self.ts(), self.p(), self.t_count as int);
        match self.statements() {
            Some(()) => {},
            None => {
                assert(self.out@ =~= out0 + (pre + out_of(b)));
                return None;
            },
        }
        assert(self.out@ =~= out0 + (pre + out_of(b)));
        let k = self.kind_at(0);
        if k == Kind::Else {
            self.consume(1);
            let e2 = else_kw_bytes();
            self.emit(&e2);
            let ghost pre2 = pre + out_of(b) + e2@;
            assert(self.out@ =~= out0 + pre2);
            let ghost b2 = block(self.ts(), self.p(), self.t_count as int);
            let r = self.statements();
            assert(self.out@ =~= out0 + (pre2 + out_of(b2)));
            r
        } else {
            Some(())
        }
    }

    /// A block `{ statement* }` with a scope of its own.
    #[verifier::spinoff_prover]
    pub fn statements(&mut self) -> (r: Option<()>)
        requires
            old(self).inv(),
            old(self).problem is None,
        ensures
            steady(old(self), final(self)),
            post_unit(old(self), final(self), r, block(old(self).ts(), old(self).p(), old(self).t_count as int)),
            r is Some ==> final(self).types@ == old(self).types@,
        decreases old(self).ts().len() - old(self).p(), 4int,
    {
        reveal(block);
        let k = self.kind_at(0);
        if k != Kind::LeftCurly {
            self.fail(ParseError::MissingLeftCurly);
            return None;
        }
        self.consume(1);
        let ghost before = self.types@;
        let fresh: Scope = Vec::new();
        proof {
            lemma_unique_push(before, fresh);
        }
        self.types.push(fresh);
        assert(self.types@.drop_last() =~= before);
        assert(self.inv());
        self.block_items()
    }

    /// The statements of a block through its `}`, which closes its scope.
    #[verifier::spinoff_prover]
    pub fn block_items(&mut self) -> (r: Option<()>)
        requires
            old(self).inv(),
            old(self).problem is None,
            old(self).types@.len() >= 2,
        ensures
            steady(old(self), final(self)),
            post_unit(
                old(self),
                final(self),
                r,
                block_items(old(self).ts(), old(self).p(), Seq::empty(), old(self).t_count as int),
            ),
            r is Some ==> final(self).types@ == old(self).types@.drop_last(),
        decreases old(self).ts().len() - old(self).p(), 3int,
    {
        reveal(block_items);
        let ghost ts = self.ts();
        let ghost p_start = self.p();
        let ghost t0 = self.t_count as int;
        let ghost out0 = self.out@;
        let ghost mut o: Seq<u8> = Seq::empty();
        assert(out0 + o =~= out0);
        loop
            invariant
                self.inv(),
                self.ts() == ts,
                self.lex.bytes@ == old(self).lex.bytes@,
                self.problem is None,
                self.types@ == old(self).types@,
                old(self).types@.len() >= 2,
                p_start == old(self).p(),
                t0 == old(self).t_count,
                out0 == old(self).out@,
                p_start <= self.p(),
                t0 <= self.t_count,
                self.out@ == out0 + o,
                block_items(ts, self.p(), o, self.t_count as int) == block_items(
                    ts,
                    p_start,
                    Seq::empty(),
                    t0,
                ),
            decreases ts.len() - self.p(),
        {
            proof {
                reveal(block_items);
            }
            let k = self.kind_at(0);
            if k == Kind::RightCurly {
                self.consume(1);
                proof {
                    lemma_unique_pop(self.types@);
                }
                self.types.pop();
                return Some(());
            }
            let ghost st = statement(ts, self.p(), self.t_count as int);
            match self.statement() {
                Some(()) => {
                    proof {
                        o = o + out_of(st);
                    }
                },
                None => {
                    assert(self.out@ =~= out0 + (o + out_of(st)));
                    return None;
                },
            }
        }
    }
    /// Opens a function's block: checks its `{`, then puts each parameter in
    /// a new scope as a variable; a name given twice is an error.
    #[verifier::spinoff_prover]
    pub fn open_scope(&mut self, params: &Vec<Vec<u8>>) -> (r: Option<()>)
        requires
            old(self).inv(),
            old(self).problem is None,
        ensures
            steady(old(self), final(self)),
            final(self).out == old(self).out,
            final(self).t_count == old(self).t_count,
            tok_at(old(self).ts(), old(self).p()) != STok::LeftCurly ==> r is None
                && final(self).problem == Some(ParseError::MissingLeftCurly),
            tok_at(old(self).ts(), old(self).p()) == STok::LeftCurly && has_dup(names_of(params@))
                ==> r is None && final(self).problem == Some(ParseError::DuplicateParameter),
            tok_at(old(self).ts(), old(self).p()) == STok::LeftCurly && !has_dup(names_of(params@))
                ==> r is Some && final(self).problem is None && final(self).p() == old(self).p()
                + 1 && final(self).types@.len() == old(self).types@.len() + 1
                && final(self).types@.drop_last() == old(self).types@,
    {
        let k = self.kind_at(0);
        if k != Kind::LeftCurly {
            self.fail(ParseError::MissingLeftCurly);
            return None;
        }
        self.consume(1);
        let ghost names = names_of(params@);
        let mut scope: Scope = Vec::new();
        let mut i: usize = 0;
        while i < params.len()
            invariant
                self.inv(),
                self.lex.bytes@ == old(self).lex.bytes@,
                self.problem is None,
                self.out == old(self).out,
                self.t_count == old(self).t_count,
                self.types == old(self).types,
                self.p() == old(self).p() + 1,
                tok_at(old(self).ts(), old(self).p()) == STok::LeftCurly,
                i <= params@.len(),
                names == names_of(params@),
                scope@.len() == i,
                forall|j: int| 0 <= j < i ==> (#[trigger] scope@[j]).0@ == names[j],
                forall|a: int, b: int| 0 <= a < b < i ==> names[a] != names[b],
            decreases params@.len() - i,
        {
            assert(names[i as int] == params@[i as int]@);
            if scope_has(&scope, &params[i]) {
                let ghost j = choose|j: int| 0 <= j < scope@.len() && (#[trigger] scope@[j]).0@ == params@[i as int]@;
                assert(names[j] == names[i as int]);
                assert(has_dup(names));
                self.fail(ParseError::DuplicateParameter);
                return None;
            }
            assert forall|a: int| 0 <= a < i implies names[a] != names[i as int] by {
                assert((scope@[a]).0@ == names[a]);
            }
            scope.push((crate::token::copy_bytes(&params[i]), Type::Var));
            i = i + 1;
        }
        assert(!has_dup(names));
        let ghost before = self.types@;
        assert forall|a: int, b: int| 0 <= a < b < scope@.len() implies (#[trigger] scope@[a]).0@
            != (#[trigger] scope@[b]).0@ by {
            assert(scope@[a].0@ == names[a]);
            assert(scope@[b].0@ == names[b]);
        }
        proof {
            lemma_unique_push(before, scope);
        }
        self.types.push(scope);
        assert(self.types@.drop_last() =~= before);
        assert(self.inv());
        Some(())
    }

    /// A function: `func NAME ( PARAMS ) { ... }`. Its IR starts once its
    /// parameters are in scope and ends with `%endfunc`, also after a failure
    /// in its body.
    #[verifier::spinoff_prover]
    pub fn function(&mut self) -> (r: Option<()>)
        requires
            old(self).inv(),
            old(self).problem is None,
        ensures
            steady(old(self), final(self)),
            post_unit(old(self), final(self), r, function(old(self).ts(), old(self).p(), old(self).t_count as int)),
            r is Some ==> final(self).types@ == old(self).types@,
    {
        let ghost ts = self.ts();
        let ghost p_start = self.p();
        let ghost out0 = self.out@;
        let k0 = self.kind_at(0);
        let k1 = self.kind_at(1);
        let k2 = self.kind_at(2);
        if !(k0 == Kind::Func && k1 == Kind::Identifier && k2 == Kind::LeftParen) {
            self.fail(ParseError::NotFunction);
            assert(self.out@ =~= out0 + Seq::<u8>::empty());
            return None;
        }
        assert(tok_at(ts, p_start) == STok::Func);
        assert(tok_at(ts, p_start + 2) == STok::LeftParen);
        let name = self.word_at(1);
        self.consume(3);
        let mut params: Vec<Vec<u8>> = Vec::new();
        let mut text: Vec<u8> = Vec::new();
        let mut done = false;
        assert(names_of(params@) =~= Seq::<Seq<u8>>::empty());
        while !done
            invariant
                self.inv(),
                self.ts() == ts,
                self.lex.bytes@ == old(self).lex.bytes@,
                self.problem is None,
                self.types == old(self).types,
                self.out@ == out0,
                self.t_count == old(self).t_count,
                p_start == old(self).p(),
                out0 == old(self).out@,
                p_start + 3 <= self.p(),
                tok_at(ts, p_start) == STok::Func,
                tok_at(ts, p_start + 1) is Identifier,
                tok_at(ts, p_start + 2) == STok::LeftParen,
                name@ == payload(tok_at(ts, p_start + 1)),
                !done ==> params_from(ts, self.p(), names_of(params@), text@) == params_from(
                    ts,
                    p_start + 3,
                    Seq::empty(),
                    Seq::empty(),
                ),
                done ==> params_from(ts, p_start + 3, Seq::empty(), Seq::empty()) == Some(
                    (self.p(), names_of(params@), text@),
                ),
            decreases ts.len() - self.p(), if done { 0int } else { 1int },
        {
            let a0 = self.kind_at(0);
            let a1 = self.kind_at(1);
            let a2 = self.kind_at(2);
            if a0 == Kind::Int && a1 == Kind::Identifier && (a2 == Kind::Comma || a2 == Kind::RightParen) {
                let a = self.word_at(1);
                self.consume(3);
                let ghost before = names_of(params@);
                push_all(&mut text, &int_kw_bytes());
                push_all(&mut text, &a);
                if a2 == Kind::Comma {
                    push_all(&mut text, &sep_bytes());
                } else {
                    push_all(&mut text, &rparen_nl_bytes());
                    done = true;
                }
                params.push(a);
                assert(names_of(params@) =~= before.push(a@));
            } else if a0 == Kind::RightParen {
                self.consume(1);
                push_all(&mut text, &rparen_nl_bytes());
                done = true;
            } else {
                assert(params_from(ts, self.p(), names_of(params@), text@) is None);
                assert(params_from(ts, p_start + 3, Seq::empty(), Seq::empty()) is None);
                assert(tok_at(ts, p_start) == STok::Func);
                assert(tok_at(ts, p_start + 1) is Identifier);
                assert(tok_at(ts, p_start + 2) == STok::LeftParen);
                assert(function(ts, p_start, old(self).t_count as int) == PRes::<()>::Stop {
                    out: Seq::empty(),
                    err: Some(ParseError::BadParameters),
                });
                self.fail(ParseError::BadParameters);
                assert(self.out@ =~= out0 + Seq::<u8>::empty());
                return None;
            }
        }
        let mut head = func_kw_bytes();
        push_all(&mut head, &name);
        push_all(&mut head, &lparen_bytes());
        push_all(&mut head, &text);
        let kc = self.kind_at(0);
        if kc != Kind::LeftCurly {
            self.emit(&head);
            let end = endfunc_bytes();
            self.emit(&end);
            self.fail(ParseError::MissingLeftCurly);
            assert(self.out@ =~= out0 + (head@ + end@));
            return None;
        }
        assert(self.out@ =~= out0 + Seq::<u8>::empty());
        match self.open_scope(&params) {
            Some(()) => {},
            None => {
                return None;
            },
        }
        self.emit(&head);
        let ghost body = block_items(ts, self.p(), Seq::empty(), self.t_count as int);
        let r = self.block_items();
        let end = endfunc_bytes();
        self.emit(&end);
        assert(self.out@ =~= out0 + (head@ + out_of(body) + end@));
        r
    }

    /// The next top-level item: a function, or nothing at the end of input.
    pub fn parse(&mut self) -> (r: Option<()>)
        requires
            old(self).inv(),
            old(self).problem is None,
        ensures
            steady(old(self), final(self)),
            tok_at(old(self).ts(), old(self).p()) == STok::Func ==> post_unit(
                old(self),
                final(self),
                r,
                function(old(self).ts(), old(self).p(), old(self).t_count as int),
            ) && (r is Some ==> final(self).types@ == old(self).types@),
            tok_at(old(self).ts(), old(self).p()) == STok::Empty ==> r is None && final(self).out
                == old(self).out && final(self).problem is None,
            tok_at(old(self).ts(), old(self).p()) != STok::Func && tok_at(old(self).ts(), old(self).p())
                != STok::Empty ==> r is None && final(self).out == old(self).out
                && final(self).problem == Some(ParseError::InvalidToken),
    {
        let k = self.kind_at(0);
        if k == Kind::Func {
            self.function()
        } else if k == Kind::Empty {
            None
        } else {
            self.fail(ParseError::InvalidToken);
            None
        }
    }

    /// Whether `name` stands for `check_type` in the innermost of the first `i`
    /// scopes that declares it; `None` where none does.
    pub fn type_check(&self, i: usize, name: &Vec<u8>, check_type: Type) -> (r: Option<()>)
        requires
            i <= self.types@.len(),
        ensures
            r is Some <==> lookup(self.types@, i as int, name@) == Some(check_type),
        decreases i,
    {
        if i == 0 {
            return None;
        }
        let i = i - 1;
        match scope_get(&self.types[i], name) {
            Some(t) => {
                if t == check_type {
                    Some(())
                } else {
                    None
                }
            },
            None => self.type_check(i, name, check_type),
        }
    }

    /// Parses functions until the input ends or an error is recorded.
    #[verifier::spinoff_prover]
    pub fn run(&mut self)
        requires
            old(self).inv(),
            old(self).problem is None,
        ensures
            steady(old(self), final(self)),
            final(self).out@ == old(self).out@ + program_from(
                old(self).ts(),
                old(self).p(),
                Seq::empty(),
                old(self).t_count as int,
            ).0,
            final(self).problem == program_from(
                old(self).ts(),
                old(self).p(),
                Seq::empty(),
                old(self).t_count as int,
            ).1,
    {
        let ghost ts = self.ts();
        let ghost target = program_from(ts, self.p(), Seq::empty(), self.t_count as int);
        let ghost out0 = self.out@;
        let ghost mut o: Seq<u8> = Seq::empty();
        assert(out0 + o =~= out0);
        loop
            invariant
                self.inv(),
                self.ts() == ts,
                self.lex.bytes@ == old(self).lex.bytes@,
                self.problem is None,
                out0 == old(self).out@,
                old(self).p() <= self.p(),
                old(self).t_count <= self.t_count,
                self.out@ == out0 + o,
                target == program_from(ts, old(self).p(), Seq::empty(), old(self).t_count as int),
                program_from(ts, self.p(), o, self.t_count as int) == target,
            decreases ts.len() - self.p(),
        {
            let ghost f = function(ts, self.p(), self.t_count as int);
            match self.parse() {
                Some(()) => {
                    proof {
                        o = o + out_of(f);
                    }
                },
                None => {
                    assert(self.out@ =~= out0 + (o + out_of(f)) || self.out@ =~= out0 + o);
                    return;
                },
            }
        }
    }
}

/// The outcome of compiling one source text.
pub struct Compiled {
    /// The IR emitted, up to the first error.
    pub ir: Vec<u8>,
    /// The first syntactic error, if any.
    pub parse_error: Option<ParseError>,
    /// The lexical error, if the lexer met one.
    pub lex_error: Option<LexError>,
    /// The lexer's line when compilation stopped.
    pub line: usize,
}

/// Compiles a source text to IR: the IR of its token stream and the first
/// syntactic error. When there is none, the lexer has read the whole input
/// and reports its error, if any, and its final line; a lexical error is
/// reported only as the lexer met it on the whole input.
pub fn compile(src: Vec<u8>) -> (r: Compiled)
    requires
        src@.len() < usize::MAX,
    ensures
        r.ir@ == program(token_seq(src@)).0,
        r.parse_error == program(token_seq(src@)).1,
        r.parse_error is None ==> r.lex_error == lex_result(src@).problem && r.line
            == lex_result(src@).line,
        r.lex_error is Some ==> r.lex_error == lex_result(src@).problem && r.line
            == lex_result(src@).line,
{
    let mut par = Par::make(src);
    par.run();
    assert(par.out@ =~= program(token_seq(par.lex.bytes@)).0);
    if par.problem.is_none() {
        par.lex.finish();
    } else {
        proof {
            lemma_lex_end_step(par.lex.bytes@, par.lex.state());
        }
    }
    Compiled { ir: par.out, parse_error: par.problem, lex_error: par.lex.problem, line: par.lex.line }
}

} // verus!
