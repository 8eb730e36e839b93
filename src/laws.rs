use vstd::prelude::*;
use crate::token::STok;
use crate::lexer::{
    token_seq,
    tokens_from,
    lex_from,
    skip_comment,
    next_spec,
    start_state,
    LexStep,
    LexState,
    lemma_lex_from,
    is_digit,
    is_id_start,
    is_id_char,
    digits_end,
    id_end,
    word_tok,
};
use crate::grammar::program;

verus! {

/// Two source texts with the same token stream compile to the same IR and the
/// same syntactic error: blanks, line breaks and comments between tokens
/// change nothing.
pub proof fn lemma_same_tokens_same_ir(a: Seq<u8>, b: Seq<u8>)
    requires
        token_seq(a) == token_seq(b),
    ensures
        program(token_seq(a)) == program(token_seq(b)),
{
}

/// The run of digits from `i` ends at the first byte that is not a digit.
pub proof fn lemma_digits_run(s: Seq<u8>, i: int)
    requires
        0 <= i <= s.len(),
    ensures
        i <= digits_end(s, i) <= s.len(),
        forall|k: int| i <= k < digits_end(s, i) ==> is_digit(#[trigger] s[k]),
        digits_end(s, i) < s.len() ==> !is_digit(s[digits_end(s, i)]),
    decreases s.len() - i,
{
    if i < s.len() && is_digit(s[i]) {
        lemma_digits_run(s, i + 1);
    }
}

/// The run of identifier characters from `i` ends at the first byte that
/// cannot continue an identifier.
pub proof fn lemma_id_run(s: Seq<u8>, i: int)
    requires
        0 <= i <= s.len(),
    ensures
        i <= id_end(s, i) <= s.len(),
        forall|k: int| i <= k < id_end(s, i) ==> is_id_char(#[trigger] s[k]),
        id_end(s, i) < s.len() ==> !is_id_char(s[id_end(s, i)]),
    decreases s.len() - i,
{
    if i < s.len() && is_id_char(s[i]) {
        lemma_id_run(s, i + 1);
    }
}

/// Maximal munch: a number token takes every digit that follows its first,
/// and an identifier or keyword every identifier character; the token ends
/// only where the next byte could not continue it.
pub proof fn lemma_maximal_munch(s: Seq<u8>, pos: int, line: int)
    requires
        0 <= pos < s.len(),
    ensures
        is_digit(s[pos]) ==> ({
            let e = digits_end(s, pos);
            &&& lex_from(s, pos, line).tok == STok::Number(s.subrange(pos, e))
            &&& lex_from(s, pos, line).pos == e
            &&& forall|k: int| pos <= k < e ==> is_digit(#[trigger] s[k])
            &&& (e == s.len() || !is_digit(s[e]))
        }),
        is_id_start(s[pos]) ==> ({
            let e = id_end(s, pos);
            &&& lex_from(s, pos, line).tok == word_tok(s.subrange(pos, e))
            &&& lex_from(s, pos, line).pos == e
            &&& forall|k: int| pos <= k < e ==> is_id_char(#[trigger] s[k])
            &&& (e == s.len() || !is_id_char(s[e]))
        }),
{
    lemma_digits_run(s, pos);
    lemma_id_run(s, pos);
}

/// A lexing step moved one byte to the right.
pub open spec fn shift_step(r: LexStep) -> LexStep {
    LexStep { tok: r.tok, pos: r.pos + 1, line: r.line, bad: r.bad }
}

/// A lexer state moved one byte to the right.
pub open spec fn shift_state(st: LexState) -> LexState {
    LexState { pos: st.pos + 1, line: st.line, problem: st.problem }
}

proof fn lemma_shift_ends(c: u8, s: Seq<u8>, i: int)
    requires
        0 <= i <= s.len(),
    ensures
        id_end(seq![c] + s, i + 1) == id_end(s, i) + 1,
        digits_end(seq![c] + s, i + 1) == digits_end(s, i) + 1,
    decreases s.len() - i,
{
    let t = seq![c] + s;
    assert(t.len() == s.len() + 1);
    if i < s.len() {
        assert(t[i + 1] == s[i]);
        lemma_shift_ends(c, s, i + 1);
    }
}

/// Lexing after one more byte in front gives the same step, one byte later.
proof fn lemma_shift_lex(c: u8, s: Seq<u8>, pos: int, line: int)
    requires
        0 <= pos <= s.len(),
    ensures
        lex_from(seq![c] + s, pos + 1, line) == shift_step(lex_from(s, pos, line)),
    decreases s.len() - pos, 0int,
{
    let t = seq![c] + s;
    assert(t.len() == s.len() + 1);
    if pos < s.len() {
        assert(t[pos + 1] == s[pos]);
        if pos + 1 < s.len() {
            assert(t[pos + 2] == s[pos + 1]);
        }
        let b = s[pos];
        lemma_shift_ends(c, s, pos);
        lemma_shift_lex(c, s, pos + 1, line);
        lemma_shift_lex(c, s, pos + 1, line + 1);
        lemma_shift_comment(c, s, pos + 1, line);
        lemma_id_run(s, pos);
        lemma_digits_run(s, pos);
        assert(t.subrange(pos + 1, id_end(t, pos + 1)) =~= s.subrange(pos, id_end(s, pos)));
        assert(t.subrange(pos + 1, digits_end(t, pos + 1)) =~= s.subrange(
            pos,
            digits_end(s, pos),
        ));
    }
}

proof fn lemma_shift_comment(c: u8, s: Seq<u8>, i: int, line: int)
    requires
        0 <= i <= s.len(),
    ensures
        skip_comment(seq![c] + s, i + 1, line) == shift_step(skip_comment(s, i, line)),
    decreases s.len() - i, 1int,
{
    let t = seq![c] + s;
    assert(t.len() == s.len() + 1);
    if i < s.len() {
        assert(t[i + 1] == s[i]);
        if s[i] != 10u8 && s[i] != 13u8 {
            lemma_shift_comment(c, s, i + 1, line);
        } else {
            lemma_shift_lex(c, s, i, line);
        }
    } else {
        lemma_shift_lex(c, s, i, line);
    }
}

/// The tokens from a state are the same after one more byte in front.
proof fn lemma_shift_tokens(c: u8, s: Seq<u8>, st: LexState)
    requires
        0 <= st.pos <= s.len(),
    ensures
        tokens_from(seq![c] + s, shift_state(st)) == tokens_from(s, st),
    decreases s.len() - st.pos,
{
    let t = seq![c] + s;
    assert(t.len() == s.len() + 1);
    if st.problem is None {
        lemma_shift_lex(c, s, st.pos, st.line);
        lemma_lex_from(s, st.pos, st.line);
    }
    let (k, st2) = next_spec(s, st);
    assert(next_spec(t, shift_state(st)) == (k, shift_state(st2)));
    if !(k == STok::Empty || st2.pos <= st.pos || st2.pos > s.len()) {
        lemma_shift_tokens(c, s, st2);
    }
}

/// A blank (a space or a tab) in front of a source text changes none of its
/// tokens, so none of its IR.
pub proof fn lemma_leading_blank(c: u8, s: Seq<u8>)
    requires
        c == 32u8 || c == 9u8,
    ensures
        token_seq(seq![c] + s) == token_seq(s),
        program(token_seq(seq![c] + s)) == program(token_seq(s)),
{
    let t = seq![c] + s;
    assert(t[0] == c);
    lemma_shift_lex(c, s, 0, 1);
    lemma_lex_from(s, 0, 1);
    let (k, st2) = next_spec(s, start_state());
    assert(next_spec(t, start_state()) == (k, shift_state(st2)));
    if !(k == STok::Empty || st2.pos <= 0 || st2.pos > s.len()) {
        lemma_shift_tokens(c, s, st2);
    }
}

} // verus!
