use vstd::prelude::*;
use crate::token::{STok, tok_at, payload};
use crate::ir::{
    temp_name,
    bin_line,
    int_line,
    arr_line,
    mov_line,
    store_line,
    load_line,
    unary_line,
    cond_line,
    call_open,
    args_text,
};
use crate::text::{
    sep,
    rparen_nl,
    int_kw,
    func_kw,
    lparen,
    endfunc,
    while_kw,
    if_kw,
    else_kw,
    out_kw,
    input_kw,
    ret_kw,
    break_line,
    continue_line,
    op_mult,
    op_div,
    op_mod,
    op_add,
    op_sub,
    op_lt,
    op_gt,
    op_ge,
    op_le,
    op_eq,
    op_neq,
};

verus! {

/// The first syntactic (or declaration) error of a compilation.
#[derive(Debug, Clone, Copy, PartialEq, Eq)]
pub enum ParseError {
    /// A top-level token that does not start a function.
    InvalidToken,
    /// A function that does not start with `func NAME (`.
    NotFunction,
    /// A malformed parameter list.
    BadParameters,
    /// A block that does not start with `{`.
    MissingLeftCurly,
    /// Two parameters of one function with the same name.
    DuplicateParameter,
    /// A statement not ended by `;`.
    MissingSemicolon,
    /// A statement of no known shape, or with a malformed tail.
    InvalidSyntax,
    /// An array index not closed by `]`.
    ExpectedRightBracket,
    /// A call's arguments not closed by `)`.
    ExpectedCallClose,
    /// A parenthesized expression not closed by `)`.
    ExpectedRightParen,
    /// A token that cannot start an operand.
    UnexpectedToken,
    /// A `,` in a call not followed by an argument.
    ExpectedArgument,
}

/// The forms of statement.
#[derive(Debug, Clone, Copy, PartialEq, Eq, Structural)]
pub enum Form {
    ArrayDecl,
    Decl,
    DeclInit,
    Assign,
    ArrayAssign,
    While,
    If,
    Print,
    Read,
    ReadArray,
    Return,
    Break,
    Continue,
    Invalid,
}

/// The outcome of parsing one production from a position of the token stream:
/// on success the position after it, its value, the IR it emitted and the next
/// temporary number; on failure the IR emitted before the failure and the
/// error recorded (none when the stream simply ran out).
pub enum PRes<V> {
    Done { pos: int, val: V, out: Seq<u8>, temps: int },
    Stop { out: Seq<u8>, err: Option<ParseError> },
}

/// The IR emitted by a production, whether it succeeded or not.
pub open spec fn out_of<V>(r: PRes<V>) -> Seq<u8> {
    match r {
        PRes::Done { out, .. } => out,
        PRes::Stop { out, .. } => out,
    }
}

/// `q` lies past `p` and within a stream of length `n`.
pub open spec fn adv(p: int, q: int, n: int) -> bool {
    p < q <= n
}

/// The operator name of token `t` at precedence level `lv` (0 multiplicative,
/// 1 additive, 2 relational, 3 equality), if it is one.
pub open spec fn op_of(lv: nat, t: STok) -> Option<Seq<u8>> {
    if lv == 0 {
        match t {
            STok::Multiply => Some(op_mult()),
            STok::Divide => Some(op_div()),
            STok::Modulus => Some(op_mod()),
            _ => None,
        }
    } else if lv == 1 {
        match t {
            STok::Plus => Some(op_add()),
            STok::Subtract => Some(op_sub()),
            _ => None,
        }
    } else if lv == 2 {
        match t {
            STok::Less => Some(op_lt()),
            STok::Greater => Some(op_gt()),
            STok::GreaterEqual => Some(op_ge()),
            STok::LessEqual => Some(op_le()),
            _ => None,
        }
    } else {
        match t {
            STok::Equality => Some(op_eq()),
            STok::NotEqual => Some(op_neq()),
            _ => None,
        }
    }
}

/// A base expression: a name, an array element, a call, a number or a
/// parenthesized expression.
pub open spec fn base(ts: Seq<STok>, p: int, t: int) -> PRes<Seq<u8>>
    decreases ts.len() - p, 0int,
{
    if !(0 <= p < ts.len()) {
        PRes::Stop { out: Seq::empty(), err: None }
    } else {
        match ts[p] {
            STok::Identifier(id) => {
                if tok_at(ts, p + 1) == STok::LeftBracket {
                    index_tail(ts, p + 1, id, t)
                } else if tok_at(ts, p + 1) == STok::LeftParen {
                    call_tail(ts, p + 1, id, t)
                } else {
                    PRes::Done { pos: p + 1, val: id, out: Seq::empty(), temps: t }
                }
            },
            STok::Number(n) => PRes::Done { pos: p + 1, val: n, out: Seq::empty(), temps: t },
            STok::LeftParen => match bin_expr(ts, 3, p + 1, t) {
                PRes::Stop { out, err } => PRes::Stop { out, err },
                PRes::Done { pos: q, val, out, temps } => {
                    if tok_at(ts, q) == STok::RightParen {
                        PRes::Done { pos: q + 1, val, out, temps }
                    } else {
                        PRes::Stop { out, err: Some(ParseError::ExpectedRightParen) }
                    }
                },
            },
            STok::Empty => PRes::Stop { out: Seq::empty(), err: None },
            _ => PRes::Stop { out: Seq::empty(), err: Some(ParseError::UnexpectedToken) },
        }
    }
}

/// An array element `id[E]`, from the `[` at `q`: loaded into a fresh temporary.
pub open spec fn index_tail(ts: Seq<STok>, q: int, id: Seq<u8>, t: int) -> PRes<Seq<u8>>
    decreases ts.len() - q, 0int,
{
    if !(0 <= q < ts.len()) {
        PRes::Stop { out: Seq::empty(), err: None }
    } else {
        match bin_expr(ts, 3, q + 1, t) {
            PRes::Stop { out, err } => PRes::Stop { out, err },
            PRes::Done { pos: q2, val: i, out, temps } => {
                if tok_at(ts, q2) == STok::RightBracket {
                    PRes::Done {
                        pos: q2 + 1,
                        val: temp_name(temps),
                        out: out + load_line(temp_name(temps), id, i),
                        temps: temps + 1,
                    }
                } else {
                    PRes::Stop { out, err: Some(ParseError::ExpectedRightBracket) }
                }
            },
        }
    }
}

/// A call `id(args)`, from the `(` at `q`: its result goes to a fresh temporary.
pub open spec fn call_tail(ts: Seq<STok>, q: int, id: Seq<u8>, t: int) -> PRes<Seq<u8>>
    decreases ts.len() - q, 0int,
{
    if !(0 <= q < ts.len()) {
        PRes::Stop { out: Seq::empty(), err: None }
    } else {
        match args(ts, q + 1, t) {
            PRes::Stop { out, err } => PRes::Stop { out, err },
            PRes::Done { pos: q2, val: vals, out, temps } => {
                let call = out + call_open(temp_name(temps), id) + args_text(vals);
                if tok_at(ts, q2) == STok::RightParen {
                    PRes::Done {
                        pos: q2 + 1,
                        val: temp_name(temps),
                        out: call + rparen_nl(),
                        temps: temps + 1,
                    }
                } else {
                    PRes::Stop { out: call, err: Some(ParseError::ExpectedCallClose) }
                }
            },
        }
    }
}

/// An operand of level `lv`: a base expression at level 0, else an
/// expression of the level below.
pub open spec fn operand(ts: Seq<STok>, lv: nat, p: int, t: int) -> PRes<Seq<u8>>
    decreases ts.len() - p, 3 * lv + 2,
{
    if lv == 0 {
        base(ts, p, t)
    } else {
        bin_expr(ts, (lv - 1) as nat, p, t)
    }
}

/// A left-associative chain of operands of level `lv`.
pub open spec fn bin_expr(ts: Seq<STok>, lv: nat, p: int, t: int) -> PRes<Seq<u8>>
    decreases ts.len() - p, 3 * lv + 3,
{
    match operand(ts, lv, p, t) {
        PRes::Stop { out, err } => PRes::Stop { out, err },
        PRes::Done { pos: q, val, out, temps } => {
            if adv(p, q, ts.len() as int) {
                bin_rest(ts, lv, q, val, out, temps)
            } else {
                PRes::Stop { out, err: None }
            }
        },
    }
}

/// The rest of a chain of level `lv` from `q`, whose value so far is `lhs`,
/// after `o` was emitted: each operator takes a fresh temporary.
pub open spec fn bin_rest(ts: Seq<STok>, lv: nat, q: int, lhs: Seq<u8>, o: Seq<u8>, t: int) -> PRes<
    Seq<u8>,
>
    decreases ts.len() - q, 3 * lv + 1,
{
    if 0 <= q < ts.len() && op_of(lv, ts[q]) is Some {
        match operand(ts, lv, q + 1, t) {
            PRes::Stop { out, err } => PRes::Stop { out: o + out, err },
            PRes::Done { pos: q2, val: r, out, temps } => {
                let d = temp_name(temps);
                let o2 = o + out + bin_line(op_of(lv, ts[q])->Some_0, d, lhs, r);
                if adv(q, q2, ts.len() as int) {
                    bin_rest(ts, lv, q2, d, o2, temps + 1)
                } else {
                    PRes::Stop { out: o2, err: None }
                }
            },
        }
    } else {
        PRes::Done { pos: q, val: lhs, out: o, temps: t }
    }
}

/// A full expression.
pub open spec fn expr(ts: Seq<STok>, p: int, t: int) -> PRes<Seq<u8>> {
    bin_expr(ts, 3, p, t)
}

/// The arguments of a call: one expression or more, separated by `,`.
pub open spec fn args(ts: Seq<STok>, p: int, t: int) -> PRes<Seq<Seq<u8>>>
    decreases ts.len() - p, 14int,
{
    match bin_expr(ts, 3, p, t) {
        PRes::Stop { out, err } => PRes::Stop { out, err },
        PRes::Done { pos: q, val, out, temps } => {
            if adv(p, q, ts.len() as int) {
                args_rest(ts, q, seq![val], out, temps)
            } else {
                PRes::Stop { out, err: None }
            }
        },
    }
}

/// The arguments after the first, from `q`.
pub open spec fn args_rest(ts: Seq<STok>, q: int, vals: Seq<Seq<u8>>, o: Seq<u8>, t: int) -> PRes<
    Seq<Seq<u8>>,
>
    decreases ts.len() - q, 13int,
{
    if 0 <= q < ts.len() && ts[q] == STok::Comma {
        match bin_expr(ts, 3, q + 1, t) {
            PRes::Stop { out, err } => PRes::Stop {
                out: o + out,
                err: if err is Some {
                    err
                } else {
                    Some(ParseError::ExpectedArgument)
                },
            },
            PRes::Done { pos: q2, val, out, temps } => {
                if adv(q, q2, ts.len() as int) {
                    args_rest(ts, q2, vals.push(val), o + out, temps)
                } else {
                    PRes::Stop { out: o + out, err: None }
                }
            },
        }
    } else {
        PRes::Done { pos: q, val: vals, out: o, temps: t }
    }
}

/// A statement `;`-terminated tail: succeeds past the `;` at `q`.
pub open spec fn semi(ts: Seq<STok>, q: int, o: Seq<u8>, t: int) -> PRes<()> {
    if tok_at(ts, q) == STok::Semicolon {
        PRes::Done { pos: q + 1, val: (), out: o, temps: t }
    } else {
        PRes::Stop { out: o, err: Some(ParseError::MissingSemicolon) }
    }
}

/// `int x = E;` from `p`: the expression, then `%int x` and `%mov x, E`.
pub open spec fn init_stmt(ts: Seq<STok>, p: int, t: int) -> PRes<()> {
    let id = payload(tok_at(ts, p + 1));
    match expr(ts, p + 3, t) {
        PRes::Stop { out, err } => PRes::Stop { out, err },
        PRes::Done { pos: q, val, out, temps } => semi(
            ts,
            q,
            out + int_line(id) + mov_line(id, val),
            temps,
        ),
    }
}

/// `x = E;` from `p`.
pub open spec fn assign_stmt(ts: Seq<STok>, p: int, t: int) -> PRes<()> {
    let id = payload(tok_at(ts, p));
    match expr(ts, p + 2, t) {
        PRes::Stop { out, err } => PRes::Stop { out, err },
        PRes::Done { pos: q, val, out, temps } => semi(ts, q, out + mov_line(id, val), temps),
    }
}

/// `x[I] = E;` from `p`: the store is emitted once the `;` is seen.
pub open spec fn store_stmt(ts: Seq<STok>, p: int, t: int) -> PRes<()> {
    let id = payload(tok_at(ts, p));
    match expr(ts, p + 2, t) {
        PRes::Stop { out, err } => PRes::Stop { out, err },
        PRes::Done { pos: q, val: i, out: o1, temps: t1 } => {
            if tok_at(ts, q) == STok::RightBracket && tok_at(ts, q + 1) == STok::Assign {
                match expr(ts, q + 2, t1) {
                    PRes::Stop { out, err } => PRes::Stop { out: o1 + out, err },
                    PRes::Done { pos: q2, val, out, temps } => {
                        if tok_at(ts, q2) == STok::Semicolon {
                            PRes::Done {
                                pos: q2 + 1,
                                val: (),
                                out: o1 + out + store_line(id, i, val),
                                temps,
                            }
                        } else {
                            PRes::Stop { out: o1 + out, err: Some(ParseError::MissingSemicolon) }
                        }
                    },
                }
            } else {
                PRes::Stop { out: o1, err: Some(ParseError::InvalidSyntax) }
            }
        },
    }
}

/// `print(E);` from `p`.
pub open spec fn print_stmt(ts: Seq<STok>, p: int, t: int) -> PRes<()> {
    match expr(ts, p + 2, t) {
        PRes::Stop { out, err } => PRes::Stop { out, err },
        PRes::Done { pos: q, val, out, temps } => {
            let o = out + unary_line(out_kw(), val);
            if tok_at(ts, q) == STok::RightParen && tok_at(ts, q + 1) == STok::Semicolon {
                PRes::Done { pos: q + 2, val: (), out: o, temps }
            } else {
                PRes::Stop { out: o, err: Some(ParseError::InvalidSyntax) }
            }
        },
    }
}

/// `read(x[I]);` from `p`: input into a fresh temporary, then a store.
pub open spec fn read_elem_stmt(ts: Seq<STok>, p: int, t: int) -> PRes<()> {
    let id = payload(tok_at(ts, p + 2));
    match expr(ts, p + 4, t) {
        PRes::Stop { out, err } => PRes::Stop { out, err },
        PRes::Done { pos: q, val: i, out, temps } => {
            let d = temp_name(temps);
            let o = out + unary_line(input_kw(), d) + store_line(id, i, d);
            if tok_at(ts, q) == STok::RightBracket && tok_at(ts, q + 1) == STok::RightParen
                && tok_at(ts, q + 2) == STok::Semicolon {
                PRes::Done { pos: q + 3, val: (), out: o, temps: temps + 1 }
            } else {
                PRes::Stop { out: o, err: Some(ParseError::InvalidSyntax) }
            }
        },
    }
}

/// `return E;` from `p`.
pub open spec fn return_stmt(ts: Seq<STok>, p: int, t: int) -> PRes<()> {
    match expr(ts, p + 1, t) {
        PRes::Stop { out, err } => PRes::Stop { out, err },
        PRes::Done { pos: q, val, out, temps } => semi(ts, q, out + unary_line(ret_kw(), val), temps),
    }
}

/// `while (E) BLOCK` from `p`.
#[verifier::opaque]
pub open spec fn while_stmt(ts: Seq<STok>, p: int, t: int) -> PRes<()>
    decreases ts.len() - p, 1int,
{
    match expr(ts, p + 1, t) {
        PRes::Stop { out, err } => PRes::Stop { out: while_kw() + out, err },
        PRes::Done { pos: q, val, out, temps } => {
            let pre = while_kw() + out + cond_line(val);
            if adv(p, q, ts.len() as int) {
                match block(ts, q, temps) {
                    PRes::Stop { out: o2, err } => PRes::Stop { out: pre + o2, err },
                    PRes::Done { pos: q2, val: _, out: o2, temps: t2 } => PRes::Done {
                        pos: q2,
                        val: (),
                        out: pre + o2,
                        temps: t2,
                    },
                }
            } else {
                PRes::Stop { out: pre, err: None }
            }
        },
    }
}

/// `if (E) BLOCK [else BLOCK]` from `p`.
#[verifier::opaque]
pub open spec fn if_stmt(ts: Seq<STok>, p: int, t: int) -> PRes<()>
    decreases ts.len() - p, 1int,
{
    match expr(ts, p + 1, t) {
        PRes::Stop { out, err } => PRes::Stop { out: if_kw() + out, err },
        PRes::Done { pos: q, val, out, temps } => {
            let pre = if_kw() + out + cond_line(val);
            if adv(p, q, ts.len() as int) {
                match block(ts, q, temps) {
                    PRes::Stop { out: o2, err } => PRes::Stop { out: pre + o2, err },
                    PRes::Done { pos: q2, val: _, out: o2, temps: t2 } => {
                        if tok_at(ts, q2) == STok::Else && adv(p, q2, ts.len() as int) {
                            let pre2 = pre + o2 + else_kw();
                            match block(ts, q2 + 1, t2) {
                                PRes::Stop { out: o3, err } => PRes::Stop { out: pre2 + o3, err },
                                PRes::Done { pos: q3, val: _, out: o3, temps: t3 } => PRes::Done {
                                    pos: q3,
                                    val: (),
                                    out: pre2 + o3,
                                    temps: t3,
                                },
                            }
                        } else {
                            PRes::Done { pos: q2, val: (), out: pre + o2, temps: t2 }
                        }
                    },
                }
            } else {
                PRes::Stop { out: pre, err: None }
            }
        },
    }
}

/// The statement form that the tokens from `p` select, tried in a fixed order
/// since several forms share a prefix.
pub open spec fn form_of(ts: Seq<STok>, p: int) -> Form {
    let w0 = tok_at(ts, p);
    let w1 = tok_at(ts, p + 1);
    let w2 = tok_at(ts, p + 2);
    let w3 = tok_at(ts, p + 3);
    let w4 = tok_at(ts, p + 4);
    let w5 = tok_at(ts, p + 5);
    if w0 is Int && w1 is LeftBracket && w2 is Number && w3 is RightBracket && w4 is Identifier
        && w5 is Semicolon {
        Form::ArrayDecl
    } else if w0 is Int && w1 is Identifier && w2 is Semicolon {
        Form::Decl
    } else if w0 is Int && w1 is Identifier && w2 is Assign {
        Form::DeclInit
    } else if w0 is Identifier && w1 is Assign {
        Form::Assign
    } else if w0 is Identifier && w1 is LeftBracket {
        Form::ArrayAssign
    } else if w0 is While {
        Form::While
    } else if w0 is If {
        Form::If
    } else if w0 is Print && w1 is LeftParen {
        Form::Print
    } else if w0 is Read && w1 is LeftParen && w2 is Identifier && w3 is RightParen
        && w4 is Semicolon {
        Form::Read
    } else if w0 is Read && w1 is LeftParen && w2 is Identifier && w3 is LeftBracket {
        Form::ReadArray
    } else if w0 is Return {
        Form::Return
    } else if w0 is Break && w1 is Semicolon {
        Form::Break
    } else if w0 is Continue && w1 is Semicolon {
        Form::Continue
    } else {
        Form::Invalid
    }
}

/// One statement from `p`, of the form that `form_of` selects.
#[verifier::opaque]
pub open spec fn statement(ts: Seq<STok>, p: int, t: int) -> PRes<()>
    decreases ts.len() - p, 2int,
{
    match form_of(ts, p) {
        Form::ArrayDecl => PRes::Done {
            pos: p + 6,
            val: (),
            out: arr_line(payload(tok_at(ts, p + 4)), payload(tok_at(ts, p + 2))),
            temps: t,
        },
        Form::Decl => PRes::Done {
            pos: p + 3,
            val: (),
            out: int_line(payload(tok_at(ts, p + 1))),
            temps: t,
        },
        Form::DeclInit => init_stmt(ts, p, t),
        Form::Assign => assign_stmt(ts, p, t),
        Form::ArrayAssign => store_stmt(ts, p, t),
        Form::While => while_stmt(ts, p, t),
        Form::If => if_stmt(ts, p, t),
        Form::Print => print_stmt(ts, p, t),
        Form::Read => PRes::Done {
            pos: p + 5,
            val: (),
            out: unary_line(input_kw(), payload(tok_at(ts, p + 2))),
            temps: t,
        },
        Form::ReadArray => read_elem_stmt(ts, p, t),
        Form::Return => return_stmt(ts, p, t),
        Form::Break => PRes::Done { pos: p + 2, val: (), out: break_line(), temps: t },
        Form::Continue => PRes::Done { pos: p + 2, val: (), out: continue_line(), temps: t },
        Form::Invalid => PRes::Stop { out: Seq::empty(), err: Some(ParseError::InvalidSyntax) },
    }
}

/// A block `{ statement* }` at `p`.
#[verifier::opaque]
pub open spec fn block(ts: Seq<STok>, p: int, t: int) -> PRes<()>
    decreases ts.len() - p, 4int,
{
    if tok_at(ts, p) == STok::LeftCurly {
        block_items(ts, p + 1, Seq::empty(), t)
    } else {
        PRes::Stop { out: Seq::empty(), err: Some(ParseError::MissingLeftCurly) }
    }
}

/// The statements of a block from `q` through its `}`, after `o` was emitted.
#[verifier::opaque]
pub open spec fn block_items(ts: Seq<STok>, q: int, o: Seq<u8>, t: int) -> PRes<()>
    decreases ts.len() - q, 3int,
{
    if tok_at(ts, q) == STok::RightCurly {
        PRes::Done { pos: q + 1, val: (), out: o, temps: t }
    } else if 0 <= q <= ts.len() {
        match statement(ts, q, t) {
            PRes::Stop { out, err } => PRes::Stop { out: o + out, err },
            PRes::Done { pos: q2, val: _, out, temps } => {
                if adv(q, q2, ts.len() as int) {
                    block_items(ts, q2, o + out, temps)
                } else {
                    PRes::Stop { out: o + out, err: None }
                }
            },
        }
    } else {
        PRes::Stop { out: o, err: None }
    }
}

/// A parameter list from `q` through its `)`: the names so far, and the
/// header text so far.
pub open spec fn params_from(ts: Seq<STok>, q: int, names: Seq<Seq<u8>>, text: Seq<u8>) -> Option<
    (int, Seq<Seq<u8>>, Seq<u8>),
>
    decreases ts.len() - q,
{
    let w0 = tok_at(ts, q);
    let w1 = tok_at(ts, q + 1);
    let w2 = tok_at(ts, q + 2);
    if w0 is Int && w1 is Identifier && w2 is Comma && 0 <= q && q + 3 <= ts.len() {
        let a = w1->Identifier_0;
        params_from(ts, q + 3, names.push(a), text + int_kw() + a + sep())
    } else if w0 is Int && w1 is Identifier && w2 is RightParen {
        let a = w1->Identifier_0;
        Some((q + 3, names.push(a), text + int_kw() + a + rparen_nl()))
    } else if w0 is RightParen {
        Some((q + 1, names, text + rparen_nl()))
    } else {
        None
    }
}

/// Some name occurs twice.
pub open spec fn has_dup(names: Seq<Seq<u8>>) -> bool {
    exists|i: int, j: int| 0 <= i < j < names.len() && names[i] == names[j]
}

/// A function: its header, then its body and `%endfunc` (also after a failure
/// in the body, or a missing `{`). A function with a repeated parameter name
/// emits nothing.
pub open spec fn function(ts: Seq<STok>, p: int, t: int) -> PRes<()> {
    let w1 = tok_at(ts, p + 1);
    if tok_at(ts, p) == STok::Func && w1 is Identifier && tok_at(ts, p + 2) == STok::LeftParen {
        let name = w1->Identifier_0;
        match params_from(ts, p + 3, Seq::empty(), Seq::empty()) {
            None => PRes::Stop { out: Seq::empty(), err: Some(ParseError::BadParameters) },
            Some((q, names, text)) => {
                let head = func_kw() + name + lparen() + text;
                if tok_at(ts, q) != STok::LeftCurly {
                    PRes::Stop { out: head + endfunc(), err: Some(ParseError::MissingLeftCurly) }
                } else if has_dup(names) {
                    PRes::Stop { out: Seq::empty(), err: Some(ParseError::DuplicateParameter) }
                } else {
                    match block_items(ts, q + 1, Seq::empty(), t) {
                        PRes::Stop { out, err } => PRes::Stop { out: head + out + endfunc(), err },
                        PRes::Done { pos, val: _, out, temps } => PRes::Done {
                            pos,
                            val: (),
                            out: head + out + endfunc(),
                            temps,
                        },
                    }
                }
            },
        }
    } else {
        PRes::Stop { out: Seq::empty(), err: Some(ParseError::NotFunction) }
    }
}

/// The functions of a program from `p`, after `o` was emitted: the whole IR
/// and the first error, if any.
pub open spec fn program_from(ts: Seq<STok>, p: int, o: Seq<u8>, t: int) -> (Seq<u8>, Option<
    ParseError,
>)
    decreases ts.len() - p,
{
    match tok_at(ts, p) {
        STok::Func => match function(ts, p, t) {
            PRes::Stop { out, err } => (o + out, err),
            PRes::Done { pos: q, val: _, out, temps } => {
                if adv(p, q, ts.len() as int) {
                    program_from(ts, q, o + out, temps)
                } else {
                    (o + out, None)
                }
            },
        },
        STok::Empty => (o, None),
        _ => (o, Some(ParseError::InvalidToken)),
    }
}

/// The IR of a whole token stream and its first syntactic error, if any.
pub open spec fn program(ts: Seq<STok>) -> (Seq<u8>, Option<ParseError>) {
    program_from(ts, 0, Seq::empty(), 0)
}

} // verus!
